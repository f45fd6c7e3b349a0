//! The listing itself: which entries are shown, and the text of the short and
//! the long view.

use vstd::prelude::*;
use vstd::seq_lib::*;
use crate::entry::{File, FileView};
use crate::error::ListError;
use crate::identity::{group_name, user_name};
use crate::name::{is_hidden_name, is_valid_name};
use crate::sort::{is_name_sort_of, sort_by_name};
use crate::style::{format_name, is_label};
use crate::text::{decimal, push_decimal};

verus! {

/// Whether an entry is shown: hidden entries are shown only on request.
pub open spec fn shown(file: FileView, all: bool) -> bool {
    all || !is_hidden_name(file.name)
}

/// The test "this entry is shown".
pub open spec fn shows(all: bool) -> spec_fn(File) -> bool {
    |file: File| shown(file@, all)
}

/// The entries that are shown, in the order in which they stand.
pub open spec fn emitted(entries: Seq<File>, all: bool) -> Seq<File> {
    entries.filter(shows(all))
}

/// The first character of a long line.
pub open spec fn type_char(is_dir: bool) -> char {
    if is_dir {
        'd'
    } else {
        '-'
    }
}

/// A line of the long view: type character and permissions, then the link
/// count, the owner, the group and the label, each after a single space,
/// and a line feed. Nothing is padded.
pub open spec fn long_line_text(
    file: FileView,
    owner: Seq<char>,
    group: Seq<char>,
    label: Seq<char>,
) -> Seq<char> {
    seq![type_char(file.is_dir)] + file.permissions.symbols() + seq![' '] + decimal(
        file.links as nat,
    ) + seq![' '] + owner + seq![' '] + group + seq![' '] + label + seq!['\n']
}

/// An item of the short view: the label and a single space.
pub open spec fn short_item_text(label: Seq<char>) -> Seq<char> {
    label + seq![' ']
}

/// What was found out about an entry for its line: its label, and for the
/// long view the display names of owner and group.
pub struct Row {
    pub label: Seq<char>,
    pub owner: Seq<char>,
    pub group: Seq<char>,
}

/// The text that one entry adds to the listing.
pub open spec fn item_text(file: FileView, row: Row, long_format: bool) -> Seq<char> {
    if long_format {
        long_line_text(file, row.owner, row.group, row.label)
    } else {
        short_item_text(row.label)
    }
}

/// The text of a listing: the items of its entries, one after the other in
/// the order of the entries.
pub open spec fn listing_text(entries: Seq<File>, rows: Seq<Row>, long_format: bool) -> Seq<char>
    decreases entries.len(),
{
    if entries.len() == 0 {
        Seq::empty()
    } else {
        listing_text(entries.drop_last(), rows.drop_last(), long_format) + item_text(
            entries.last()@,
            rows.last(),
            long_format,
        )
    }
}

/// Whether there is a row for each entry, with a label that fits it.
pub open spec fn rows_fit(entries: Seq<File>, rows: Seq<Row>) -> bool {
    &&& rows.len() == entries.len()
    &&& forall|i: int|
        0 <= i < entries.len() ==> is_label(
            #[trigger] entries[i]@.name,
            entries[i]@.is_dir,
            rows[i].label,
        )
}

/// Whether `text` renders `entries` in their order, with some label that
/// fits each of them and, in the long view, some names of owner and group.
pub open spec fn renders(text: Seq<char>, entries: Seq<File>, long_format: bool) -> bool {
    exists|rows: Seq<Row>| #[trigger]
        rows_fit(entries, rows) && text == listing_text(entries, rows, long_format)
}

/// Whether `text` lists `entries`: it renders, in the order of their names,
/// those of them that are shown, every one of them under a name that is not
/// empty and holds no path separator.
pub open spec fn is_listing(
    text: Seq<char>,
    entries: Seq<File>,
    all: bool,
    long_format: bool,
) -> bool {
    exists|sorted: Seq<File>|
        {
            &&& #[trigger] is_name_sort_of(sorted, entries)
            &&& renders(text, emitted(sorted, all), long_format)
            &&& forall|i: int|
                0 <= i < emitted(sorted, all).len() ==> is_valid_name(
                    #[trigger] emitted(sorted, all)[i]@.name,
                )
        }
}

/// Whether the failure is that of looking up the owner or the group of one
/// of the entries.
pub open spec fn is_lookup_failure(error: ListError, entries: Seq<File>) -> bool {
    exists|i: int|
        0 <= i < entries.len() && (error == ListError::UnknownUser(#[trigger] entries[i]@.user)
            || error == ListError::UnknownGroup(entries[i]@.group))
}

/// A line of the long view for an entry, given what the lookups of its owner
/// and its group returned. An owner without a name fails the line, and
/// otherwise a group without a name does.
pub fn long_line(file: &File, owner: Option<String>, group: Option<String>, label: &str) -> (line:
    Result<String, ListError>)
    ensures
        match line {
            Ok(text) => owner is Some && group is Some && text@ == long_line_text(
                file@,
                owner->0@,
                group->0@,
                label@,
            ),
            Err(error) => match owner {
                None => error == ListError::UnknownUser(file@.user),
                Some(_) => group is None && error == ListError::UnknownGroup(file@.group),
            },
        },
{
    let owner = match owner {
        Some(name) => name,
        None => {
            return Err(ListError::UnknownUser(file.user()));
        },
    };
    let group = match group {
        Some(name) => name,
        None => {
            return Err(ListError::UnknownGroup(file.group()));
        },
    };
    let mut text = String::new();
    if file.is_dir() {
        text.append("d");
    } else {
        text.append("-");
    }
    let symbols = file.permissions().to_symbols();
    text.append(symbols.as_str());
    text.append(" ");
    push_decimal(&mut text, file.links());
    text.append(" ");
    text.append(owner.as_str());
    text.append(" ");
    text.append(group.as_str());
    text.append(" ");
    text.append(label);
    text.append("\n");
    proof {
        reveal_strlit("d");
        reveal_strlit("-");
        reveal_strlit(" ");
        reveal_strlit("\n");
        assert("d"@ =~= seq!['d']);
        assert("-"@ =~= seq!['-']);
        assert(" "@ =~= seq![' ']);
        assert("\n"@ =~= seq!['\n']);
        assert(text@ =~= long_line_text(file@, owner@, group@, label@));
    }
    Ok(text)
}

/// An item of the short view.
pub fn short_item(label: &str) -> (item: String)
    ensures
        item@ == short_item_text(label@),
{
    let mut item = String::new();
    item.append(label);
    item.append(" ");
    proof {
        reveal_strlit(" ");
        assert(" "@ =~= seq![' ']);
        assert(item@ =~= short_item_text(label@));
    }
    item
}

/// Keeps the entries that are shown, in their order: all of them where `all`
/// is set, and otherwise those whose name does not start with a dot.
pub fn visible(entries: Vec<File>, all: bool) -> (kept: Vec<File>)
    ensures
        kept@ == emitted(entries@, all),
        forall|i: int| 0 <= i < kept.len() ==> is_valid_name(#[trigger] kept[i]@.name),
{
    let ghost given = entries@;
    let mut kept: Vec<File> = Vec::new();
    proof {
        reveal(Seq::filter);
        assert(given.take(0) =~= Seq::<File>::empty());
    }
    for file in it: entries
        invariant
            it.seq() == given,
            kept@ == emitted(given.take(it.index()), all),
            forall|i: int| 0 <= i < kept.len() ==> is_valid_name(#[trigger] kept[i]@.name),
    {
        proof {
            use_type_invariant(&file);
            given.take(it.index()).lemma_filter_push(file, shows(all));
            assert(given.take(it.index() + 1) =~= given.take(it.index()).push(file));
        }
        if all || !file.is_hide() {
            kept.push(file);
        }
    }
    proof {
        assert(given.take(given.len() as int) =~= given);
    }
    kept
}

/// Renders the entries in the order in which they stand: the long view with
/// a line for each entry, the short view with the labels on one line. The
/// labels come from the styling and the names of owners and groups from the
/// system's databases, so the text is fixed up to those. The short view
/// looks nothing up and always succeeds; the long view fails at the first
/// entry whose owner or group has no name, and then gives no text at all.
pub fn render(entries: &Vec<File>, long_format: bool) -> (rendered: Result<String, ListError>)
    ensures
        match rendered {
            Ok(text) => renders(text@, entries@, long_format),
            Err(error) => long_format && is_lookup_failure(error, entries@),
        },
        !long_format || entries.len() == 0 ==> rendered is Ok,
{
    let mut text = String::new();
    let ghost mut rows: Seq<Row> = Seq::empty();
    let mut at: usize = 0;
    proof {
        assert(entries@.take(0) =~= Seq::<File>::empty());
    }
    while at < entries.len()
        invariant
            at <= entries.len(),
            rows_fit(entries@.take(at as int), rows),
            text@ == listing_text(entries@.take(at as int), rows, long_format),
        decreases entries.len() - at,
    {
        let file = &entries[at];
        let label = format_name(file.is_dir(), file.name());
        let ghost before = text@;
        let ghost row;
        if long_format {
            let owner = user_name(file.user());
            let group = group_name(file.group());
            proof {
                row = Row {
                    label: label@,
                    owner: if owner is Some {
                        owner->0@
                    } else {
                        Seq::empty()
                    },
                    group: if group is Some {
                        group->0@
                    } else {
                        Seq::empty()
                    },
                };
            }
            match long_line(file, owner, group, label.as_str()) {
                Ok(line) => {
                    text.append(line.as_str());
                },
                Err(error) => {
                    assert(error == ListError::UnknownUser(entries@[at as int]@.user) || error
                        == ListError::UnknownGroup(entries@[at as int]@.group));
                    return Err(error);
                },
            }
        } else {
            proof {
                row = Row { label: label@, owner: Seq::empty(), group: Seq::empty() };
            }
            let item = short_item(label.as_str());
            text.append(item.as_str());
        }
        proof {
            let shorter = entries@.take(at as int);
            let longer = entries@.take(at + 1);
            assert(longer.drop_last() =~= shorter);
            assert(rows.push(row).drop_last() =~= rows);
            assert(longer.last() == entries@[at as int]);
            assert(text@ == before + item_text(entries@[at as int]@, row, long_format));
            assert forall|i: int| 0 <= i < longer.len() implies is_label(
                #[trigger] longer[i]@.name,
                longer[i]@.is_dir,
                rows.push(row)[i].label,
            ) by {
                if i < at {
                    assert(longer[i] == shorter[i]);
                    assert(is_label(shorter[i]@.name, shorter[i]@.is_dir, rows[i].label));
                }
            }
            rows = rows.push(row);
        }
        at += 1;
    }
    proof {
        assert(entries@.take(at as int) =~= entries@);
        assert(rows_fit(entries@, rows) && text@ == listing_text(entries@, rows, long_format));
    }
    Ok(text)
}

/// Every entry of a selection from a sorted copy stands among the entries
/// that were sorted.
proof fn lemma_emitted_from(sorted: Seq<File>, entries: Seq<File>, all: bool, at: int) -> (source:
    int)
    requires
        sorted.to_multiset() == entries.to_multiset(),
        0 <= at < emitted(sorted, all).len(),
    ensures
        0 <= source < entries.len(),
        entries[source] == emitted(sorted, all)[at],
        shown(entries[source]@, all),
{
    let kept = emitted(sorted, all);
    let file = kept[at];
    assert(kept.contains(file));
    sorted.lemma_filter_contains_rev(shows(all), file);
    sorted.lemma_filter_pred(shows(all), at);
    assert(shows(all)(file));
    to_multiset_contains(sorted, file);
    to_multiset_contains(entries, file);
    assert(entries.contains(file));
    choose|source: int| 0 <= source < entries.len() && entries[source] == file
}

/// Nothing is selected where nothing is shown.
proof fn lemma_none_emitted(sorted: Seq<File>, entries: Seq<File>, all: bool)
    requires
        sorted.to_multiset() == entries.to_multiset(),
        forall|i: int| 0 <= i < entries.len() ==> !shown(#[trigger] entries[i]@, all),
    ensures
        emitted(sorted, all).len() == 0,
{
    if emitted(sorted, all).len() > 0 {
        let source = lemma_emitted_from(sorted, entries, all, 0);
        assert(!shown(entries[source]@, all));
    }
}

/// Lists a directory: sorts the entries by name, drops the hidden ones
/// unless `all` is set, and renders what is left, in the long view or the
/// short one. Sorting comes first, so a hidden entry is skipped where it
/// stands and moves nothing else. The listing is all or nothing: the short
/// view always succeeds, and the long view fails only where the owner or
/// the group of an entry that is shown has no name.
pub fn list(entries: Vec<File>, all: bool, long_format: bool) -> (listed: Result<String, ListError>)
    ensures
        match listed {
            Ok(text) => is_listing(text@, entries@, all, long_format),
            Err(error) => long_format && exists|i: int|
                0 <= i < entries.len() && shown(#[trigger] entries[i]@, all) && (error
                    == ListError::UnknownUser(entries[i]@.user) || error
                    == ListError::UnknownGroup(entries[i]@.group)),
        },
        !long_format ==> listed is Ok,
        (forall|i: int| 0 <= i < entries.len() ==> !shown(#[trigger] entries[i]@, all))
            ==> listed is Ok,
{
    let mut sorted = entries;
    sort_by_name(&mut sorted);
    let ghost in_order = sorted@;
    let kept = visible(sorted, all);
    let rendered = render(&kept, long_format);
    proof {
        if forall|i: int| 0 <= i < entries.len() ==> !shown(#[trigger] entries[i]@, all) {
            lemma_none_emitted(in_order, entries@, all);
        }
        if rendered is Ok {
            assert(is_name_sort_of(in_order, entries@));
        } else {
            let error = rendered->Err_0;
            let at = choose|at: int|
                0 <= at < kept.len() && (error == ListError::UnknownUser(
                    #[trigger] kept@[at]@.user,
                ) || error == ListError::UnknownGroup(kept@[at]@.group));
            let source = lemma_emitted_from(in_order, entries@, all, at);
            assert(shown(entries@[source]@, all));
        }
    }
    rendered
}

} // verus!
