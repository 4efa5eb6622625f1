//! Command-line arguments.
use vstd::prelude::*;

verus! {

/// The program's command-line arguments, the program's own name first.
pub struct ArgParse {
    pub args: Vec<String>,
}

/// Whether some argument is exactly `a`.
pub open spec fn has_arg(args: Seq<String>, a: Seq<char>) -> bool {
    exists|i: int| 0 <= i < args.len() && (#[trigger] args[i])@ == a
}

/// Whether an argument names an option, by its short or its long form; with
/// no long form, the empty argument counts as one.
pub open spec fn names_option(a: Seq<char>, short: Seq<char>, full: Seq<char>) -> bool {
    a == short || a == full
}

/// `i` is the first argument that names the option.
pub open spec fn first_option_at(args: Seq<String>, short: Seq<char>, full: Seq<char>, i: int) -> bool {
    &&& 0 <= i < args.len()
    &&& names_option(args[i]@, short, full)
    &&& forall|j: int| 0 <= j < i ==> !names_option(#[trigger] args[j]@, short, full)
}

/// The long form of an option, the empty text where it has none.
pub open spec fn full_or_empty(arg_full: Option<&str>) -> Seq<char> {
    match arg_full {
        Some(f) => f@,
        None => Seq::empty(),
    }
}

/// The short form of the option that names the file: `-f`.
pub open spec fn file_flag() -> Seq<char> {
    seq!['-', 'f']
}

/// The long form of the option that names the file: `--file`.
pub open spec fn file_flag_full() -> Seq<char> {
    seq!['-', '-', 'f', 'i', 'l', 'e']
}

impl ArgParse {
    pub fn init(input_args: Vec<String>) -> (r: Self)
        ensures
            r.args@ == input_args@,
    {
        ArgParse { args: input_args }
    }

    fn contains(&self, a: &str) -> (r: bool)
        ensures
            r == has_arg(self.args@, a@),
    {
        let target = a.to_owned();
        let mut i: usize = 0;
        while i < self.args.len()
            invariant
                i <= self.args@.len(),
                target@ == a@,
                forall|j: int| 0 <= j < i ==> (#[trigger] self.args@[j])@ != a@,
            decreases self.args@.len() - i,
        {
            if self.args[i] == target {
                return true;
            }
            i = i + 1;
        }
        false
    }

    /// Returns true if the given arg exists in the arg list.
    pub fn arg(&self, arg: &str, arg_full: Option<&str>) -> (r: bool)
        ensures
            r == (has_arg(self.args@, arg@) || (arg_full is Some && has_arg(
                self.args@,
                arg_full->0@,
            ))),
    {
        if self.contains(arg) {
            return true;
        }
        match arg_full {
            Some(full) => self.contains(full),
            None => false,
        }
    }

    /// Returns the argument that follows the first one naming the option:
    /// `Err(1)` where none names it, `Err(2)` where nothing follows it.
    pub fn get_arg_option(&self, arg: &str, arg_full: Option<&str>) -> (r: Result<String, i32>)
        ensures
            match r {
                Ok(v) => exists|i: int|
                    first_option_at(self.args@, arg@, full_or_empty(arg_full), i) && i + 1
                        < self.args@.len() && v@ == (#[trigger] self.args@[i + 1])@,
                Err(e) => (e == 1 && forall|i: int|
                    0 <= i < self.args@.len() ==> !names_option(
                        (#[trigger] self.args@[i])@,
                        arg@,
                        full_or_empty(arg_full),
                    )) || (e == 2 && first_option_at(
                    self.args@,
                    arg@,
                    full_or_empty(arg_full),
                    self.args@.len() - 1,
                )),
            },
    {
        let short = arg.to_owned();
        let full = match arg_full {
            Some(f) => f.to_owned(),
            None => String::new(),
        };
        let mut i: usize = 0;
        while i < self.args.len()
            invariant
                i <= self.args@.len(),
                short@ == arg@,
                full@ == full_or_empty(arg_full),
                forall|j: int|
                    0 <= j < i ==> !names_option(
                        (#[trigger] self.args@[j])@,
                        arg@,
                        full_or_empty(arg_full),
                    ),
            decreases self.args@.len() - i,
        {
            if self.args[i] == short || self.args[i] == full {
                if i + 1 < self.args.len() {
                    let v = self.args[i + 1].clone();
                    assert(first_option_at(self.args@, arg@, full_or_empty(arg_full), i as int));
                    return Ok(v);
                } else {
                    return Err(2);
                }
            }
            i = i + 1;
        }
        Err(1)
    }
    /// Returns the path of the file to edit. `last_exists` and `last_is_file` say
    /// what the file system holds at the path in the last argument. That
    /// argument is the path where it names a file and the argument before it
    /// is no option; else the argument after `-f` or `--file` is, when there
    /// is nothing at the last argument's path. `Err(1)` where neither holds.
    pub fn get_file_path(&self, last_exists: bool, last_is_file: bool) -> (r: Result<String, i32>)
        requires
            self.args@.len() > 0,
            last_exists && last_is_file && self.args@.len() >= 2 ==> self.args@[self.args@.len()
                - 2]@.len() > 0,
        ensures
            ({
                let args = self.args@;
                let n = args.len();
                let after_option = n >= 2 && args[n - 2]@[0] == '-';
                if last_exists {
                    if last_is_file && !after_option {
                        r is Ok && r->Ok_0@ == args[n - 1]@
                    } else {
                        r is Err && r->Err_0 == 1
                    }
                } else {
                    match r {
                        Ok(v) => exists|i: int|
                            first_option_at(args, file_flag(), file_flag_full(), i) && i + 1 < n
                                && v@ == (#[trigger] args[i + 1])@,
                        Err(e) => e == 1 && forall|i: int|
                            #![trigger args[i]]
                            0 <= i < n - 1 ==> !first_option_at(
                                args,
                                file_flag(),
                                file_flag_full(),
                                i,
                            ),
                    }
                }
            }),
    {
        let n = self.args.len();
        if last_exists {
            if last_is_file {
                if n >= 2 && self.args[n - 2].as_str().get_char(0) == '-' {
                    Err(1)
                } else {
                    Ok(self.args[n - 1].clone())
                }
            } else {
                Err(1)
            }
        } else {
            proof {
                reveal_strlit("-f");
                reveal_strlit("--file");
                assert("-f"@ =~= file_flag());
                assert("--file"@ =~= file_flag_full());
            }
            let option = self.get_arg_option("-f", Some("--file"));
            match option {
                Ok(path) => Ok(path),
                Err(_) => {
                    proof {
                        assert forall|i: int| 0 <= i < n - 1 implies !first_option_at(
                            self.args@,
                            file_flag(),
                            file_flag_full(),
                            i,
                        ) by {
                            if first_option_at(self.args@, file_flag(), file_flag_full(), i) {
                                assert(names_option(self.args@[i]@, file_flag(), file_flag_full()));
                            }
                        }
                    }
                    Err(1)
                },
            }
        }
    }
}

} // verus!
