//! The sync invocation: everything the application decides before it hands
//! the work to the external command-line tool, stated over plain values.
//! The surrounding shell performs the actual process spawn and reports the
//! combined output.

use vstd::prelude::*;

verus! {

/// The request handed to the sync runner.
pub struct SyncArgs {
    pub since_hours: u32,
    pub ignore_last_sync: bool,
    pub dry_run: bool,
}

/// The decimal digit character for `d`.
pub open spec fn spec_digit(d: int) -> char {
    if d == 0 {
        '0'
    } else if d == 1 {
        '1'
    } else if d == 2 {
        '2'
    } else if d == 3 {
        '3'
    } else if d == 4 {
        '4'
    } else if d == 5 {
        '5'
    } else if d == 6 {
        '6'
    } else if d == 7 {
        '7'
    } else if d == 8 {
        '8'
    } else {
        '9'
    }
}

/// The decimal numeral of `n`, most significant digit first.
pub open spec fn spec_decimal(n: int) -> Seq<char>
    decreases n,
{
    if n < 10 {
        seq![spec_digit(n)]
    } else {
        spec_decimal(n / 10).push(spec_digit(n % 10))
    }
}

/// The one-character string for a single decimal digit.
fn digit_str(d: u32) -> (s: String)
    requires
        d < 10,
    ensures
        s@ == seq![spec_digit(d as int)],
{
    proof {
        reveal_strlit("0");
        reveal_strlit("1");
        reveal_strlit("2");
        reveal_strlit("3");
        reveal_strlit("4");
        reveal_strlit("5");
        reveal_strlit("6");
        reveal_strlit("7");
        reveal_strlit("8");
        reveal_strlit("9");
    }
    let s = if d == 0 {
        "0"
    } else if d == 1 {
        "1"
    } else if d == 2 {
        "2"
    } else if d == 3 {
        "3"
    } else if d == 4 {
        "4"
    } else if d == 5 {
        "5"
    } else if d == 6 {
        "6"
    } else if d == 7 {
        "7"
    } else if d == 8 {
        "8"
    } else {
        "9"
    };
    String::from_str(s)
}

/// The decimal numeral of `n`.
pub fn u32_to_string(n: u32) -> (s: String)
    ensures
        s@ == spec_decimal(n as int),
    decreases n,
{
    if n < 10 {
        digit_str(n)
    } else {
        let rest = u32_to_string(n / 10);
        let last = digit_str(n % 10);
        let out = rest.concat(last.as_str());
        proof {
            assert(out@ =~= spec_decimal(n as int / 10).push(spec_digit(n as int % 10)));
        }
        out
    }
}

/// The argument list handed to the interpreter for one sync run.
pub open spec fn spec_sync_args(hours: int, ignore_last_sync: bool) -> Seq<Seq<char>> {
    let base = seq![
        "-m"@,
        "bearminder.main"@,
        "sync-once"@,
        "--since-hours"@,
        spec_decimal(hours),
    ];
    if ignore_last_sync {
        base.push("--ignore-last-sync"@)
    } else {
        base
    }
}

pub fn sync_command_args(args: &SyncArgs) -> (argv: Vec<String>)
    ensures
        argv.deep_view() == spec_sync_args(args.since_hours as int, args.ignore_last_sync),
{
    let mut argv: Vec<String> = Vec::new();
    argv.push(String::from_str("-m"));
    argv.push(String::from_str("bearminder.main"));
    argv.push(String::from_str("sync-once"));
    argv.push(String::from_str("--since-hours"));
    argv.push(u32_to_string(args.since_hours));
    if args.ignore_last_sync {
        argv.push(String::from_str("--ignore-last-sync"));
    }
    proof {
        assert(argv.deep_view() =~= spec_sync_args(
            args.since_hours as int,
            args.ignore_last_sync,
        ));
    }
    argv
}

/// The value of the dry-run environment variable handed to the subprocess.
pub fn dry_run_env_value(dry_run: bool) -> (v: String)
    ensures
        dry_run ==> v@ == "true"@,
        !dry_run ==> v@ == "false"@,
{
    if dry_run {
        String::from_str("true")
    } else {
        String::from_str("false")
    }
}

/// Interpreter selection: the repository's virtual-environment interpreter
/// when it exists, otherwise `python3` when the search path offers it,
/// otherwise `python`.
pub fn choose_python(venv_python: String, venv_exists: bool, python3_found: bool) -> (r: String)
    ensures
        venv_exists ==> r == venv_python,
        !venv_exists && python3_found ==> r@ == "python3"@,
        !venv_exists && !python3_found ==> r@ == "python"@,
{
    if venv_exists {
        venv_python
    } else if python3_found {
        String::from_str("python3")
    } else {
        String::from_str("python")
    }
}

} // verus!
