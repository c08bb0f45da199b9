//! The command executor's decisions: building the shell command line,
//! classifying a finished command's output, and reading the installed
//! package's newest changelog timestamp out of an `rpm` query.

use vstd::prelude::*;
use vstd::string::*;
use vstd::utf8::*;

use crate::error::Error;

verus! {

/// What a finished, non-interactive subprocess left behind: whether its
/// exit status reported success, and its captured output streams.
pub struct CmdOutput {
    pub success: bool,
    pub stdout: Vec<u8>,
    pub stderr: Vec<u8>,
}

/// Which operation a command ran for; decides the error that wraps the
/// command's standard error text when it fails.
#[derive(Clone, Copy, PartialEq, Eq, Structural, Debug)]
pub enum CmdErrorKind {
    Download,
    Update,
    Zypper,
    Dnf,
    RpmQuery,
}

/// Whether `e` is the error of `kind` carrying the message `msg`.
pub open spec fn kind_wraps(kind: CmdErrorKind, msg: Seq<char>, e: Error) -> bool {
    match kind {
        CmdErrorKind::Download => e matches Error::DownloadError(m) && m@ == msg,
        CmdErrorKind::Update => e matches Error::UpdateError(m) && m@ == msg,
        CmdErrorKind::Zypper => e matches Error::ZypperError(m) && m@ == msg,
        CmdErrorKind::Dnf => e matches Error::DnfError(m) && m@ == msg,
        CmdErrorKind::RpmQuery => e matches Error::RPMCommandError(m) && m@ == msg,
    }
}

/// The error `String::from_utf8` reports on input that is not UTF-8;
/// carried opaquely so the caller sees which stream failed to decode.
#[verifier::external_type_specification]
#[verifier::external_body]
pub struct ExFromUtf8Error(std::string::FromUtf8Error);

/// Relies on `String::from_utf8`: it succeeds exactly on valid UTF-8 input,
/// and then returns the text those bytes encode.
#[verifier::external_body]
fn bytes_to_string(v: Vec<u8>) -> (r: Result<String, std::string::FromUtf8Error>)
    ensures
        r is Ok <==> valid_utf8(v@),
        r matches Ok(s) ==> s@ == decode_utf8(v@),
{
    String::from_utf8(v)
}

/// The command line an operation should hand to the shell. Rejects an empty
/// command before anything is spawned; when elevation is requested the
/// command is prefixed with the privilege-elevation helper.
pub fn prepare_shell_command(command: &str, elevate_privileges: bool) -> (r: Result<String, Error>)
    ensures
        r is Ok <==> command@.len() > 0,
        r matches Err(e) ==> e matches Error::EmptyCommand,
        r matches Ok(c) ==> c@ == if elevate_privileges {
            "pkexec "@ + command@
        } else {
            command@
        },
{
    if command.is_empty() {
        return Result::Err(Error::EmptyCommand);
    }
    if elevate_privileges {
        let mut line = String::from_str("pkexec ");
        line.append(command);
        Result::Ok(line)
    } else {
        Result::Ok(String::from_str(command))
    }
}

/// Classifies a finished command's output: a successful exit yields the
/// decoded standard output; a failed exit yields the error of `kind`
/// carrying the decoded standard error; either stream that is not valid
/// UTF-8 yields a decoding error instead.
pub fn process_cmd_output(output: CmdOutput, kind: CmdErrorKind) -> (r: Result<String, Error>)
    ensures
        output.success && valid_utf8(output.stdout@) ==> (r matches Ok(s) && s@ == decode_utf8(
            output.stdout@,
        )),
        !output.success && valid_utf8(output.stderr@) ==> (r matches Err(e) && kind_wraps(
            kind,
            decode_utf8(output.stderr@),
            e,
        )),
        output.success && !valid_utf8(output.stdout@) ==> (r matches Err(e) && e matches
            Error::Utf8StringError(_)),
        !output.success && !valid_utf8(output.stderr@) ==> (r matches Err(e) && e matches
            Error::Utf8StringError(_)),
{
    if !output.success {
        let stderr = match bytes_to_string(output.stderr) {
            Result::Ok(s) => s,
            Result::Err(e) => {
                return Result::Err(Error::Utf8StringError(e));
            },
        };
        Result::Err(wrap_error(kind, stderr))
    } else {
        match bytes_to_string(output.stdout) {
            Result::Ok(s) => Result::Ok(s),
            Result::Err(e) => Result::Err(Error::Utf8StringError(e)),
        }
    }
}

/// The error of `kind` carrying `msg`.
fn wrap_error(kind: CmdErrorKind, msg: String) -> (e: Error)
    ensures
        kind_wraps(kind, msg@, e),
{
    match kind {
        CmdErrorKind::Download => Error::DownloadError(msg),
        CmdErrorKind::Update => Error::UpdateError(msg),
        CmdErrorKind::Zypper => Error::ZypperError(msg),
        CmdErrorKind::Dnf => Error::DnfError(msg),
        CmdErrorKind::RpmQuery => Error::RPMCommandError(msg),
    }
}

/// Whether `c` is one of the characters `'0'` through `'9'`.
pub open spec fn is_decimal_digit(c: char) -> bool {
    48 <= c as u32 && c as u32 <= 57
}

/// The numeric value of a decimal digit character.
pub open spec fn digit_value(c: char) -> int {
    c as u32 - 48
}

/// Whether every character of `s` is a decimal digit.
pub open spec fn all_decimal_digits(s: Seq<char>) -> bool {
    forall|i: int| 0 <= i < s.len() ==> is_decimal_digit(#[trigger] s[i])
}

/// The number the digit string `s` denotes, most significant digit first.
pub open spec fn decimal_value(s: Seq<char>) -> int
    decreases s.len(),
{
    if s.len() == 0 {
        0
    } else {
        decimal_value(s.drop_last()) * 10 + digit_value(s.last())
    }
}

proof fn lemma_decimal_value_nonneg(s: Seq<char>)
    requires
        all_decimal_digits(s),
    ensures
        decimal_value(s) >= 0,
    decreases s.len(),
{
    if s.len() > 0 {
        assert(forall|i: int|
            0 <= i < s.drop_last().len() ==> is_decimal_digit(#[trigger] s.drop_last()[i]));
        lemma_decimal_value_nonneg(s.drop_last());
    }
}

proof fn lemma_decimal_value_prefix(s: Seq<char>, j: int)
    requires
        0 <= j <= s.len(),
        all_decimal_digits(s),
    ensures
        decimal_value(s.take(j)) <= decimal_value(s),
    decreases s.len() - j,
{
    if j < s.len() {
        lemma_decimal_value_prefix(s, j + 1);
        assert(s.take(j + 1).drop_last() =~= s.take(j));
        assert(forall|i: int|
            0 <= i < s.take(j).len() ==> is_decimal_digit(#[trigger] s.take(j)[i]));
        lemma_decimal_value_nonneg(s.take(j));
    } else {
        assert(s.take(j) =~= s);
    }
}

/// Reads a base-ten 64-bit number from `s`. Succeeds exactly when `s` is a
/// nonempty string of decimal digits whose value fits in a `u64`.
pub fn parse_u64(s: &str) -> (r: Result<u64, Error>)
    ensures
        r is Ok <==> (s@.len() > 0 && all_decimal_digits(s@) && decimal_value(s@) <= u64::MAX),
        r matches Ok(v) ==> v == decimal_value(s@),
        r matches Err(e) ==> e matches Error::ParseIntError,
{
    let len = s.unicode_len();
    if len == 0 {
        return Result::Err(Error::ParseIntError);
    }
    let mut val: u64 = 0;
    let mut i: usize = 0;
    while i < len
        invariant
            i <= len,
            len == s@.len(),
            all_decimal_digits(s@.take(i as int)),
            val == decimal_value(s@.take(i as int)),
        decreases len - i,
    {
        proof {
            assert(s@.take(i + 1).drop_last() =~= s@.take(i as int));
            assert(s@.take(i + 1).last() == s@[i as int]);
        }
        let c = s.get_char(i);
        let code = c as u32;
        if code < 48 || code > 57 {
            assert(!is_decimal_digit(s@[i as int]));
            return Result::Err(Error::ParseIntError);
        }
        let d = (code - 48) as u64;
        let scaled = match val.checked_mul(10) {
            Option::Some(x) => x,
            Option::None => {
                proof {
                    if all_decimal_digits(s@) {
                        lemma_decimal_value_nonneg(s@.take(i as int));
                        lemma_decimal_value_prefix(s@, i + 1);
                    }
                }
                return Result::Err(Error::ParseIntError);
            },
        };
        let next = match scaled.checked_add(d) {
            Option::Some(x) => x,
            Option::None => {
                proof {
                    if all_decimal_digits(s@) {
                        lemma_decimal_value_prefix(s@, i + 1);
                    }
                }
                return Result::Err(Error::ParseIntError);
            },
        };
        val = next;
        i += 1;
        proof {
            assert(all_decimal_digits(s@.take(i as int)));
        }
    }
    proof {
        assert(s@.take(len as int) =~= s@);
    }
    Result::Ok(val)
}

/// The index of the first newline in `s` at or after `i`, or the length of
/// `s` when there is none.
pub open spec fn line_break(s: Seq<char>, i: int) -> int
    decreases s.len() - i,
{
    if i < 0 || i >= s.len() {
        s.len() as int
    } else if s[i] == '\n' {
        i
    } else {
        line_break(s, i + 1)
    }
}

/// The text before the first newline of `s`, with a trailing carriage
/// return removed, as `str::lines` yields it.
pub open spec fn first_line(s: Seq<char>) -> Seq<char> {
    let raw = s.take(line_break(s, 0));
    if raw.len() > 0 && raw.last() == '\r' {
        raw.drop_last()
    } else {
        raw
    }
}

/// The first line of `s`.
fn str_first_line<'a>(s: &'a str) -> (r: &'a str)
    ensures
        r@ == first_line(s@),
{
    let len = s.unicode_len();
    let mut i: usize = 0;
    while i < len && s.get_char(i) != '\n'
        invariant
            i <= len,
            len == s@.len(),
            line_break(s@, 0) == line_break(s@, i as int),
        decreases len - i,
    {
        i += 1;
    }
    assert(i == line_break(s@, 0));
    if i > 0 && s.get_char(i - 1) == '\r' {
        let r = s.substring_char(0, i - 1);
        proof {
            assert(s@.take(line_break(s@, 0)).drop_last() =~= s@.subrange(0, i - 1));
        }
        r
    } else {
        let r = s.substring_char(0, i);
        proof {
            assert(s@.take(line_break(s@, 0)) =~= s@.subrange(0, i as int));
        }
        r
    }
}

/// The arguments of the `rpm` query that prints the newest changelog
/// timestamp of an installed package.
pub fn rpm_changelogtime_query(name: &str) -> (r: Vec<String>)
    ensures
        r.deep_view() =~= seq!["-q"@, name@, "--qf"@, "%{CHANGELOGTIME}"@],
{
    let mut args: Vec<String> = Vec::new();
    args.push(String::from_str("-q"));
    args.push(String::from_str(name));
    args.push(String::from_str("--qf"));
    args.push(String::from_str("%{CHANGELOGTIME}"));
    args
}

/// Reads the newest changelog timestamp of an installed package out of the
/// finished `rpm` query: the first line of its output, as a decimal 64-bit
/// number. A failed query becomes an `RPMCommandError`, an undecodable
/// stream a `Utf8StringError`, an empty output an `InvalidRPMResponse`,
/// and an unreadable number a `ParseIntError`.
pub fn get_installed_pkg_timestamp(output: CmdOutput) -> (r: Result<u64, Error>)
    ensures
        !output.success && valid_utf8(output.stderr@) ==> (r matches Err(e) && kind_wraps(
            CmdErrorKind::RpmQuery,
            decode_utf8(output.stderr@),
            e,
        )),
        !output.success && !valid_utf8(output.stderr@) ==> (r matches Err(e) && e matches
            Error::Utf8StringError(_)),
        output.success && !valid_utf8(output.stdout@) ==> (r matches Err(e) && e matches
            Error::Utf8StringError(_)),
        output.success && valid_utf8(output.stdout@) ==> ({
            let t = decode_utf8(output.stdout@);
            &&& t.len() == 0 ==> (r matches Err(e) && e matches Error::InvalidRPMResponse)
            &&& t.len() > 0 ==> {
                &&& r is Ok <==> (first_line(t).len() > 0 && all_decimal_digits(first_line(t))
                    && decimal_value(first_line(t)) <= u64::MAX)
                &&& (r matches Ok(v) ==> v == decimal_value(first_line(t)))
                &&& (r matches Err(e) ==> e matches Error::ParseIntError)
            }
        }),
{
    let stdout = match process_cmd_output(output, CmdErrorKind::RpmQuery) {
        Result::Ok(s) => s,
        Result::Err(e) => {
            return Result::Err(e);
        },
    };
    if stdout.as_str().is_empty() {
        return Result::Err(Error::InvalidRPMResponse);
    }
    parse_u64(str_first_line(stdout.as_str()))
}

/// Classifies an interactive command, of which only the exit status is
/// known: a nonzero exit becomes an update failure with no captured text.
pub fn interactive_result(success: bool) -> (r: Result<(), Error>)
    ensures
        r is Ok <==> success,
        r matches Err(e) ==> e matches Error::UpdateError(m) && m@.len() == 0,
{
    if success {
        Result::Ok(())
    } else {
        Result::Err(Error::UpdateError(String::new()))
    }
}

} // verus!
