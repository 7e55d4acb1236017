//! Reading the command line: environment names, then `--`, then the program
//! and its arguments.

use vstd::prelude::*;

verus! {

/// What the command line asks for.
#[derive(Clone, Debug)]
pub struct CommandLineInfo {
    pub target_environments: Vec<String>,
    pub executable: String,
    pub arguments: Vec<String>,
}

/// How an invocation is to proceed, judged from its arguments alone.
#[derive(Clone, Copy, Debug, PartialEq, Eq, Structural)]
pub enum ArgumentCheck {
    /// `--help` came first: print usage and succeed.
    ShowHelp,
    /// Too few arguments to name a program: print usage and fail.
    TooFew,
    /// Go on with the environments and the program.
    Proceed,
}

/// Whether `s` is the separator `--`.
pub open spec fn is_separator(s: Seq<char>) -> bool {
    s == seq!['-', '-']
}

/// Whether `s` is `--help`.
pub open spec fn is_help(s: Seq<char>) -> bool {
    s == seq!['-', '-', 'h', 'e', 'l', 'p']
}

/// The position of the first separator at or after `from`, or the length of
/// `args` where there is none.
pub open spec fn separator_from(args: Seq<String>, from: int) -> int
    decreases args.len() - from,
{
    if from >= args.len() {
        args.len() as int
    } else if is_separator(args[from]@) {
        from
    } else {
        separator_from(args, from + 1)
    }
}

/// The program run where the command line names none.
pub open spec fn default_executable() -> Seq<char> {
    seq!['e', 'n', 'v', 'm', 'a', 'n']
}

fn chars_equal(s: &String, expected: &Vec<char>) -> (r: bool)
    ensures
        r == (s@ == expected@),
{
    let n = s.as_str().unicode_len();
    if n != expected.len() {
        return false;
    }
    let mut k: usize = 0;
    while k < n
        invariant
            n == s@.len(),
            n == expected@.len(),
            k <= n,
            forall|j: int| 0 <= j < k ==> s@[j] == expected@[j],
        decreases n - k,
    {
        if s.as_str().get_char(k) != expected[k] {
            return false;
        }
        k = k + 1;
    }
    assert(s@ =~= expected@);
    true
}

/// Decides from the whole argument list, program name first, whether to
/// show usage, fail for want of arguments, or go on.
pub fn check_arguments(args: &Vec<String>) -> (r: ArgumentCheck)
    ensures
        r == (if args@.len() > 1 && is_help(args@[1]@) {
            ArgumentCheck::ShowHelp
        } else if args@.len() < 3 {
            ArgumentCheck::TooFew
        } else {
            ArgumentCheck::Proceed
        }),
{
    let help: Vec<char> = vec!['-', '-', 'h', 'e', 'l', 'p'];
    assert(help@ =~= seq!['-', '-', 'h', 'e', 'l', 'p']);
    if args.len() > 1 && chars_equal(&args[1], &help) {
        ArgumentCheck::ShowHelp
    } else if args.len() < 3 {
        ArgumentCheck::TooFew
    } else {
        ArgumentCheck::Proceed
    }
}

/// Splits the whole argument list, program name first: the names before the
/// first `--` are environments; the one after it is the program, `envman`
/// where there is none; the rest are the program's arguments.
pub fn get_command_line_info(args: &Vec<String>) -> (r: CommandLineInfo)
    ensures
        ({
            let p = separator_from(args@, 1);
            &&& args@.len() <= 1 ==> r.target_environments@.len() == 0
            &&& args@.len() > 1 ==> r.target_environments@ == args@.subrange(1, p)
            &&& p + 1 < args@.len() ==> r.executable@ == args@[p + 1]@
            &&& p + 1 >= args@.len() ==> r.executable@ == default_executable()
            &&& p + 2 <= args@.len() ==> r.arguments@ == args@.subrange(p + 2, args@.len() as int)
            &&& p + 2 > args@.len() ==> r.arguments@.len() == 0
        }),
{
    let sep: Vec<char> = vec!['-', '-'];
    assert(sep@ =~= seq!['-', '-']);
    let mut targets: Vec<String> = Vec::new();
    let mut i: usize = 1;
    while i < args.len() && !chars_equal(&args[i], &sep)
        invariant
            1 <= i,
            args@.len() > 1 ==> i <= args@.len(),
            args@.len() <= 1 ==> i == 1 && targets@.len() == 0,
            sep@ == seq!['-', '-'],
            separator_from(args@, 1) == separator_from(args@, i as int),
            args@.len() > 1 ==> targets@ == args@.subrange(1, i as int),
        decreases args@.len() - i,
    {
        targets.push(args[i].clone());
        i = i + 1;
    }
    let ghost p = i as int;
    assert(p >= args@.len() ==> separator_from(args@, p) == args@.len());
    let mut executable = String::new();
    let mut arguments: Vec<String> = Vec::new();
    if i < args.len() && args.len() - i > 1 {
        executable = args[i + 1].clone();
        let mut k: usize = i + 2;
        while k < args.len()
            invariant
                i + 2 <= k <= args@.len(),
                arguments@ == args@.subrange(i + 2, k as int),
            decreases args@.len() - k,
        {
            arguments.push(args[k].clone());
            k = k + 1;
        }
    } else {
        executable.append("envman");
        proof {
            reveal_strlit("envman");
        }
        assert(executable@ =~= default_executable());
    }
    CommandLineInfo { target_environments: targets, executable, arguments }
}

} // verus!
