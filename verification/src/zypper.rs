//! The zypper backend: the walk over `zypper --xmlout lu`'s XML events
//! and the backend's strict update check.

use vstd::prelude::*;
use vstd::string::*;
use vstd::utf8::*;

use crate::command::{kind_wraps, process_cmd_output, CmdErrorKind, CmdOutput};
use crate::config::PackageConfig;
use crate::error::Error;
use crate::package_manager::PackageUpdateItem;
use crate::text::str_eq;
use crate::xml::{elem_attr, element_name, read_xml_node, try_attribute, xml_attr, xml_doc,
    xml_kind, xml_reader_from_str, xml_tag, xml_taken, XmlKind, XmlNode};

verus! {

/// The view of an optional version string.
pub open spec fn opt_view(o: Option<String>) -> Option<Seq<char>> {
    match o {
        Option::None => Option::None,
        Option::Some(s) => Option::Some(s@),
    }
}

/// What the element opened at position `n` of document `doc` contributes
/// to the update list: nothing when its tag is not `update` or its `name`
/// attribute is absent or empty; otherwise the name with the `edition`
/// and `edition-old` attributes as the new and old versions; an error
/// when one of the three attribute lookups fails.
pub open spec fn zypper_update_at(doc: Seq<char>, n: nat) -> Result<
    Option<(Seq<char>, Option<Seq<char>>, Option<Seq<char>>)>,
    (),
> {
    if xml_tag(doc, n) == "update"@ {
        match xml_attr(doc, n, "name"@) {
            Result::Err(e) => Result::Err(e),
            Result::Ok(name_opt) => match xml_attr(doc, n, "edition"@) {
                Result::Err(e) => Result::Err(e),
                Result::Ok(edition) => match xml_attr(doc, n, "edition-old"@) {
                    Result::Err(e) => Result::Err(e),
                    Result::Ok(edition_old) => {
                        let name = match name_opt {
                            Option::Some(v) => v,
                            Option::None => Seq::<char>::empty(),
                        };
                        if name.len() == 0 {
                            Result::Ok(Option::None)
                        } else {
                            Result::Ok(Option::Some((name, edition, edition_old)))
                        }
                    },
                },
            },
        }
    } else {
        Result::Ok(Option::None)
    }
}

/// The updates the document yields from position `n` on, reading at most
/// `fuel` events: one entry per opened `update` element with a non-empty
/// name, in document order; an error as soon as an event or an attribute
/// is malformed; the end of the document ends the list.
pub open spec fn zypper_scan(doc: Seq<char>, n: nat, fuel: nat) -> Result<
    Seq<(Seq<char>, Option<Seq<char>>, Option<Seq<char>>)>,
    (),
>
    decreases fuel,
{
    if fuel == 0 {
        Result::Ok(Seq::empty())
    } else {
        match xml_kind(doc, n) {
            XmlKind::Error => Result::Err(()),
            XmlKind::Eof => Result::Ok(Seq::empty()),
            XmlKind::Other => zypper_scan(doc, n + 1, (fuel - 1) as nat),
            XmlKind::Start => match zypper_update_at(doc, n) {
                Result::Err(e) => Result::Err(e),
                Result::Ok(head) => match zypper_scan(doc, n + 1, (fuel - 1) as nat) {
                    Result::Err(e) => Result::Err(e),
                    Result::Ok(rest) => Result::Ok(
                        match head {
                            Option::Some(item) => seq![item] + rest,
                            Option::None => rest,
                        },
                    ),
                },
            },
        }
    }
}

/// Whether the update item carries exactly one scanned entry's name and
/// versions.
pub open spec fn is_zypper_item(
    item: PackageUpdateItem,
    parts: (Seq<char>, Option<Seq<char>>, Option<Seq<char>>),
) -> bool {
    &&& item.name@ == parts.0
    &&& opt_view(item.new_version) == parts.1
    &&& opt_view(item.old_version) == parts.2
}

/// Whether `items` lists exactly the scanned updates, pairwise.
pub open spec fn zypper_items_match(
    items: Seq<PackageUpdateItem>,
    parts: Seq<(Seq<char>, Option<Seq<char>>, Option<Seq<char>>)>,
) -> bool {
    &&& items.len() == parts.len()
    &&& forall|i: int| 0 <= i < items.len() ==> is_zypper_item(#[trigger] items[i], parts[i])
}

/// Whether, with `done` updates already collected and the reader standing
/// at position `n`, the rest of the document still decides the whole scan.
spec fn scan_pending(
    doc: Seq<char>,
    done: Seq<(Seq<char>, Option<Seq<char>>, Option<Seq<char>>)>,
    n: nat,
) -> bool
    recommends
        n <= doc.len(),
{
    match zypper_scan(doc, n, (doc.len() - n) as nat) {
        Result::Ok(rest) => zypper_scan(doc, 0, doc.len() as nat) == Result::<
            Seq<(Seq<char>, Option<Seq<char>>, Option<Seq<char>>)>,
            (),
        >::Ok(done + rest),
        Result::Err(_) => zypper_scan(doc, 0, doc.len() as nat) is Err,
    }
}

/// Builds the update carried by one `update` element from its attribute
/// values: nothing when the `name` attribute was absent or empty, else an
/// update with exactly the name and the optional versions.
pub fn update_item_from_attrs(
    name: String,
    edition: Option<String>,
    edition_old: Option<String>,
) -> (r: Option<PackageUpdateItem>)
    ensures
        r is Some <==> name@.len() > 0,
        r matches Some(item) ==> {
            &&& item.name == name
            &&& item.new_version == edition
            &&& item.old_version == edition_old
        },
{
    if name.as_str().is_empty() {
        Option::None
    } else {
        Option::Some(PackageUpdateItem { name, new_version: edition, old_version: edition_old })
    }
}

/// Walks the XML events of zypper's update list: exactly one update per
/// opened `update` element whose `name` attribute is present and
/// non-empty, in document order, with `edition` and `edition-old` as the
/// new and old versions; malformed XML or a malformed attribute fails the
/// whole parse; a document without update elements yields the empty list.
pub fn parse_zypper_updates(stdout: &str) -> (r: Result<Vec<PackageUpdateItem>, Error>)
    ensures
        ({
            let scan = zypper_scan(stdout@, 0, stdout@.len() as nat);
            &&& (r is Ok <==> scan is Ok)
            &&& (r matches Ok(items) ==> zypper_items_match(items@, scan->Ok_0))
            &&& (r matches Err(e) ==> (e matches Error::XMLError(_) || e matches
                Error::XMLAttributeError(_)))
        }),
        r matches Ok(items) ==> forall|i: int|
            0 <= i < items@.len() ==> (#[trigger] items@[i]).name@.len() > 0,
{
    let ghost doc = stdout@;
    let mut reader = xml_reader_from_str(stdout);
    let mut items: Vec<PackageUpdateItem> = Vec::new();
    let ghost mut done: Seq<(Seq<char>, Option<Seq<char>>, Option<Seq<char>>)> = Seq::empty();
    // Every event other than the end of the document consumes at least one
    // byte of the input, so the input's length bounds how many events can
    // come before it; running out of that budget can only coincide with
    // the end of the document, which contributes nothing either. The scan
    // above mirrors that budget as its fuel.
    let len = stdout.unicode_len();
    let mut n: usize = 0;
    let mut at_end: bool = false;
    proof {
        match zypper_scan(doc, 0, doc.len() as nat) {
            Result::Ok(rest) => {
                assert(done + rest =~= rest);
            },
            Result::Err(_) => {},
        }
    }
    while n < len && !at_end
        invariant
            n <= len,
            len == doc.len(),
            stdout@ == doc,
            xml_doc(reader) == doc,
            xml_taken(reader) == n as nat,
            zypper_items_match(items@, done),
            forall|i: int| 0 <= i < items@.len() ==> (#[trigger] items@[i]).name@.len() > 0,
            !at_end ==> scan_pending(doc, done, n as nat),
            at_end ==> zypper_scan(doc, 0, doc.len() as nat) == Result::<
                Seq<(Seq<char>, Option<Seq<char>>, Option<Seq<char>>)>,
                (),
            >::Ok(done),
        decreases len - n,
    {
        let ghost pos = n as nat;
        let ghost fuel = (len - n) as nat;
        proof {
            assert(fuel >= 1);
        }
        match read_xml_node(&mut reader) {
            Result::Err(e) => {
                proof {
                    assert(zypper_scan(doc, pos, fuel) is Err);
                }
                return Result::Err(e);
            },
            Result::Ok(XmlNode::Eof) => {
                proof {
                    assert(zypper_scan(doc, pos, fuel) == Result::<
                        Seq<(Seq<char>, Option<Seq<char>>, Option<Seq<char>>)>,
                        (),
                    >::Ok(Seq::empty()));
                    assert(done + Seq::<
                        (Seq<char>, Option<Seq<char>>, Option<Seq<char>>),
                    >::empty() =~= done);
                }
                at_end = true;
            },
            Result::Ok(XmlNode::Other) => {
                proof {
                    assert(zypper_scan(doc, pos, fuel) == zypper_scan(
                        doc,
                        pos + 1,
                        (fuel - 1) as nat,
                    ));
                }
            },
            Result::Ok(XmlNode::Start(element)) => {
                let tag = element_name(&element);
                if str_eq(tag.as_str(), "update") {
                    assert(xml_tag(doc, pos) == "update"@);
                    let name_attr = match try_attribute(&element, "name") {
                        Result::Ok(v) => v,
                        Result::Err(e) => {
                            proof {
                                assert(elem_attr(element, "name"@) is Err);
                                assert(zypper_update_at(doc, pos) is Err);
                                assert(zypper_scan(doc, pos, fuel) is Err);
                            }
                            return Result::Err(e);
                        },
                    };
                    let edition = match try_attribute(&element, "edition") {
                        Result::Ok(v) => v,
                        Result::Err(e) => {
                            proof {
                                assert(elem_attr(element, "edition"@) is Err);
                                assert(zypper_update_at(doc, pos) is Err);
                                assert(zypper_scan(doc, pos, fuel) is Err);
                            }
                            return Result::Err(e);
                        },
                    };
                    let edition_old = match try_attribute(&element, "edition-old") {
                        Result::Ok(v) => v,
                        Result::Err(e) => {
                            proof {
                                assert(elem_attr(element, "edition-old"@) is Err);
                                assert(zypper_update_at(doc, pos) is Err);
                                assert(zypper_scan(doc, pos, fuel) is Err);
                            }
                            return Result::Err(e);
                        },
                    };
                    let name = match name_attr {
                        Option::Some(s) => s,
                        Option::None => String::new(),
                    };
                    let ghost head = zypper_update_at(doc, pos);
                    proof {
                        assert(head is Ok);
                    }
                    match update_item_from_attrs(name, edition, edition_old) {
                        Option::Some(item) => {
                            proof {
                                assert(head->Ok_0 matches Option::Some(it) && is_zypper_item(
                                    item,
                                    it,
                                ));
                            }
                            let ghost pre_items = items@;
                            let ghost prev_done = done;
                            items.push(item);
                            proof {
                                let it = head->Ok_0->0;
                                assert(forall|i: int|
                                    0 <= i < pre_items.len() ==> items@[i] == #[trigger] pre_items[
                                    i]);
                                assert(items@[pre_items.len() as int] == item);
                                done = prev_done.push(it);
                                assert(zypper_items_match(items@, done));
                                match zypper_scan(doc, pos + 1, (fuel - 1) as nat) {
                                    Result::Ok(rest) => {
                                        assert(zypper_scan(doc, pos, fuel) == Result::<
                                            Seq<
                                                (Seq<char>, Option<Seq<char>>, Option<Seq<char>>),
                                            >,
                                            (),
                                        >::Ok(seq![it] + rest));
                                        assert(prev_done + (seq![it] + rest) =~= done + rest);
                                    },
                                    Result::Err(_) => {},
                                }
                            }
                        },
                        Option::None => {
                            proof {
                                assert(head == Result::<
                                    Option<(Seq<char>, Option<Seq<char>>, Option<Seq<char>>)>,
                                    (),
                                >::Ok(Option::None));
                                assert(zypper_scan(doc, pos, fuel) == zypper_scan(
                                    doc,
                                    pos + 1,
                                    (fuel - 1) as nat,
                                ));
                            }
                        },
                    }
                } else {
                    proof {
                        assert(xml_tag(doc, pos) != "update"@);
                        assert(zypper_update_at(doc, pos) == Result::<
                            Option<(Seq<char>, Option<Seq<char>>, Option<Seq<char>>)>,
                            (),
                        >::Ok(Option::None));
                        assert(zypper_scan(doc, pos, fuel) == zypper_scan(
                            doc,
                            pos + 1,
                            (fuel - 1) as nat,
                        ));
                    }
                }
            },
        }
        n += 1;
    }
    proof {
        if !at_end {
            assert((len - n) as nat == 0);
            assert(zypper_scan(doc, n as nat, 0) == Result::<
                Seq<(Seq<char>, Option<Seq<char>>, Option<Seq<char>>)>,
                (),
            >::Ok(Seq::empty()));
            assert(done + Seq::<(Seq<char>, Option<Seq<char>>, Option<Seq<char>>)>::empty()
                =~= done);
        }
    }
    Result::Ok(items)
}

/// The zypper backend. It reads packages with the shared archive reader
/// and detects updates from `zypper --xmlout lu`'s XML output.
pub struct ZypperManager<'a> {
    pub config: &'a PackageConfig,
}

impl<'a> ZypperManager<'a> {
    /// The configuration this backend was built over.
    pub fn get_config(&self) -> (r: &'a PackageConfig)
        ensures
            r == self.config,
    {
        self.config
    }

    /// Interprets a finished `zypper --xmlout lu` call. Unlike the dnf
    /// backend, a failed call is surfaced as a zypper error rather than
    /// read as "no updates": for this backend a nonzero exit means the
    /// command itself went wrong. A successful call yields exactly the
    /// updates its XML output declares, or a parse error when that output
    /// is malformed.
    pub fn check_update(&self, output: CmdOutput) -> (r: Result<Vec<PackageUpdateItem>, Error>)
        ensures
            !output.success && valid_utf8(output.stderr@) ==> (r matches Err(e) && kind_wraps(
                CmdErrorKind::Zypper,
                decode_utf8(output.stderr@),
                e,
            )),
            !output.success ==> r is Err,
            output.success && !valid_utf8(output.stdout@) ==> (r matches Err(e) && e matches
                Error::Utf8StringError(_)),
            output.success && valid_utf8(output.stdout@) ==> ({
                let text = decode_utf8(output.stdout@);
                let scan = zypper_scan(text, 0, text.len() as nat);
                &&& (r is Ok <==> scan is Ok)
                &&& (r matches Ok(items) ==> zypper_items_match(items@, scan->Ok_0))
                &&& (r matches Err(e) ==> (e matches Error::XMLError(_) || e matches
                    Error::XMLAttributeError(_)))
            }),
            r matches Ok(items) ==> forall|i: int|
                0 <= i < items@.len() ==> (#[trigger] items@[i]).name@.len() > 0,
    {
        let stdout = match process_cmd_output(output, CmdErrorKind::Zypper) {
            Result::Ok(s) => s,
            Result::Err(e) => {
                return Result::Err(e);
            },
        };
        parse_zypper_updates(stdout.as_str())
    }
}

} // verus!
