//! The dnf backend: a parser for `dnf check-update`'s tabular output and
//! the backend's deliberately lenient update check.

use vstd::prelude::*;
use vstd::string::*;
use vstd::utf8::*;

use crate::command::{line_break, process_cmd_output, CmdErrorKind, CmdOutput};
use crate::config::PackageConfig;
use crate::error::Error;
use crate::package_manager::PackageUpdateItem;
use crate::text::str_eq;

verus! {

broadcast use vstd::string::group_string_axioms;

/// The blank characters that may separate the columns of dnf's tabular
/// update list: the Unicode whitespace characters, except the line feed,
/// which ends a line before this comes into play.
pub open spec fn is_blank(c: char) -> bool {
    ||| c == ' ' || c == '\t' || c == '\r' || c == '\u{b}' || c == '\u{c}'
    ||| c == '\u{85}' || c == '\u{a0}' || c == '\u{1680}'
    ||| (0x2000 <= c as u32 && c as u32 <= 0x200a)
    ||| c == '\u{2028}' || c == '\u{2029}' || c == '\u{202f}' || c == '\u{205f}'
    ||| c == '\u{3000}'
}

/// The end of the run of blank (`blank` true) or non-blank (`blank` false)
/// characters that starts at `i`.
pub open spec fn run_end(s: Seq<char>, i: int, blank: bool) -> int
    decreases s.len() - i,
{
    if i < 0 || i >= s.len() {
        s.len() as int
    } else if is_blank(s[i]) == blank {
        run_end(s, i + 1, blank)
    } else {
        i
    }
}

/// The name and new version carried by one line of dnf's update list, when
/// the line has the shape `<name> <version> updates`: a non-blank name, a
/// non-blank version and the literal word `updates`, separated by blanks,
/// with nothing else before or after.
pub open spec fn dnf_line_item(line: Seq<char>) -> Option<(Seq<char>, Seq<char>)> {
    let e1 = run_end(line, 0, false);
    let e2 = run_end(line, e1, true);
    let e3 = run_end(line, e2, false);
    let e4 = run_end(line, e3, true);
    if 0 < e1 && e1 < e2 && e2 < e3 && e3 < e4 && line.subrange(e4, line.len() as int)
        == "updates"@ {
        Option::Some((line.subrange(0, e1), line.subrange(e2, e3)))
    } else {
        Option::None
    }
}

/// The (name, version) pairs of every matching line of the whole captured
/// output, line by line.
pub open spec fn dnf_items(s: Seq<char>) -> Seq<(Seq<char>, Seq<char>)>
    decreases s.len(),
    via dnf_items_decreases
{
    let e = line_break(s, 0);
    let head = match dnf_line_item(s.take(e)) {
        Option::Some(it) => seq![it],
        Option::None => Seq::empty(),
    };
    if e == s.len() {
        head
    } else {
        head + dnf_items(s.subrange(e + 1, s.len() as int))
    }
}

proof fn lemma_line_break_bounds(s: Seq<char>, i: int)
    requires
        0 <= i <= s.len(),
    ensures
        i <= line_break(s, i) <= s.len(),
        line_break(s, i) < s.len() ==> s[line_break(s, i)] == '\n',
    decreases s.len() - i,
{
    if i < s.len() && s[i] != '\n' {
        lemma_line_break_bounds(s, i + 1);
    }
}

#[via_fn]
proof fn dnf_items_decreases(s: Seq<char>) {
    lemma_line_break_bounds(s, 0);
}

/// Whether the update item carries exactly the name and new version of one
/// matched line, with no old version, as this source never reports one.
pub open spec fn is_dnf_item(item: PackageUpdateItem, parts: (Seq<char>, Seq<char>)) -> bool {
    &&& item.name@ == parts.0
    &&& item.new_version matches Option::Some(v) && v@ == parts.1
    &&& item.old_version is None
}

/// Whether `items` lists exactly the updates of `parts`, pairwise.
pub open spec fn all_dnf_items(
    items: Seq<PackageUpdateItem>,
    parts: Seq<(Seq<char>, Seq<char>)>,
) -> bool {
    &&& items.len() == parts.len()
    &&& forall|i: int| 0 <= i < items.len() ==> is_dnf_item(#[trigger] items[i], parts[i])
}

/// Whether `c` separates the columns of the update list.
fn is_blank_char(c: char) -> (r: bool)
    ensures
        r == is_blank(c),
{
    let u = c as u32;
    u == 0x20 || u == 0x9 || u == 0xd || u == 0xb || u == 0xc || u == 0x85 || u == 0xa0
        || u == 0x1680 || (0x2000 <= u && u <= 0x200a) || u == 0x2028 || u == 0x2029
        || u == 0x202f || u == 0x205f || u == 0x3000
}

/// The end of the run of column or separator characters starting at
/// `start`.
fn scan_run(s: &str, start: usize, blank: bool) -> (r: usize)
    requires
        start <= s@.len(),
    ensures
        r == run_end(s@, start as int, blank),
        start <= r <= s@.len(),
{
    let len = s.unicode_len();
    let mut i: usize = start;
    while i < len && is_blank_char(s.get_char(i)) == blank
        invariant
            start <= i <= len,
            len == s@.len(),
            run_end(s@, start as int, blank) == run_end(s@, i as int, blank),
        decreases len - i,
    {
        i += 1;
    }
    i
}

/// Reads one line of the update list; yields an update exactly when the
/// line matches the `<name> <version> updates` shape.
fn parse_dnf_line(line: &str) -> (r: Option<PackageUpdateItem>)
    ensures
        r is Some <==> dnf_line_item(line@) is Some,
        r matches Some(item) ==> is_dnf_item(item, dnf_line_item(line@)->0),
{
    proof {
        reveal_strlit("updates");
        assert("updates"@.len() == 7);
    }
    let len = line.unicode_len();
    let e1 = scan_run(line, 0, false);
    let e2 = scan_run(line, e1, true);
    let e3 = scan_run(line, e2, false);
    let e4 = scan_run(line, e3, true);
    if !(0 < e1 && e1 < e2 && e2 < e3 && e3 < e4) {
        return Option::None;
    }
    if len - e4 != 7 {
        return Option::None;
    }
    let tail = line.substring_char(e4, len);
    if !str_eq(tail, "updates") {
        return Option::None;
    }
    assert(line@.subrange(e4 as int, len as int) == "updates"@);
    let name = String::from_str(line.substring_char(0, e1));
    let version = String::from_str(line.substring_char(e2, e3));
    Option::Some(
        PackageUpdateItem {
            name,
            old_version: Option::None,
            new_version: Option::Some(version),
        },
    )
}

/// Reads dnf's whole captured update list: one update for every line that
/// matches the tabular shape, in order; every other line is passed over.
pub fn parse_dnf_output(stdout: &str) -> (items: Vec<PackageUpdateItem>)
    ensures
        all_dnf_items(items@, dnf_items(stdout@)),
    decreases stdout@.len(),
{
    let len = stdout.unicode_len();
    let mut i: usize = 0;
    while i < len && stdout.get_char(i) != '\n'
        invariant
            i <= len,
            len == stdout@.len(),
            line_break(stdout@, 0) == line_break(stdout@, i as int),
        decreases len - i,
    {
        i += 1;
    }
    assert(i == line_break(stdout@, 0));
    let line = stdout.substring_char(0, i);
    proof {
        assert(line@ =~= stdout@.take(i as int));
    }
    let mut items: Vec<PackageUpdateItem> = Vec::new();
    match parse_dnf_line(line) {
        Option::Some(item) => {
            items.push(item);
        },
        Option::None => {},
    }
    if i < len {
        let rest = stdout.substring_char(i + 1, len);
        let mut tail = parse_dnf_output(rest);
        proof {
            assert(rest@ =~= stdout@.subrange(i + 1, len as int));
        }
        items.append(&mut tail);
    }
    items
}

/// The dnf backend. It reads packages with the shared archive reader and
/// detects updates from `dnf check-update`'s tabular output.
pub struct DnfManger<'a> {
    pub config: &'a PackageConfig,
}

impl<'a> DnfManger<'a> {
    /// The configuration this backend was built over.
    pub fn get_config(&self) -> (r: &'a PackageConfig)
        ensures
            r == self.config,
    {
        self.config
    }

    /// Interprets a finished `dnf check-update` call. This backend is
    /// deliberately lenient: dnf exits nonzero exactly when updates exist,
    /// so a failed or undecodable call degrades to "no updates" instead of
    /// an error, and the call as a whole never fails.
    pub fn check_update(&self, output: CmdOutput) -> (r: Result<Vec<PackageUpdateItem>, Error>)
        ensures
            r is Ok,
            output.success && valid_utf8(output.stdout@) ==> all_dnf_items(
                r->Ok_0@,
                dnf_items(decode_utf8(output.stdout@)),
            ),
            !(output.success && valid_utf8(output.stdout@)) ==> r->Ok_0@.len() == 0,
    {
        match process_cmd_output(output, CmdErrorKind::Dnf) {
            Result::Ok(stdout) => Result::Ok(parse_dnf_output(stdout.as_str())),
            Result::Err(_) => Result::Ok(Vec::new()),
        }
    }
}

} // verus!
