//! The entity index: the vault folders that hold people and projects, and the
//! names of the notes found there (`Alice.md` is the entity `Alice`).
use vstd::prelude::*;
use crate::text::{copy_text, ends_with, has_suffix, trim_end_all, trim_suffix_all};

verus! {

/// Seconds between two scans of the vault.
pub const INDEX_INTERVAL_SECS: u64 = 300;

/// The entity named by a file, if it is a markdown note: the name without
/// every trailing `.md`.
pub open spec fn entity_of(file_name: Seq<char>) -> Option<Seq<char>> {
    if has_suffix(file_name, ".md"@) {
        Some(trim_suffix_all(file_name, ".md"@))
    } else {
        None
    }
}

/// The entities named by walked entries (whether the entry is a file, and its
/// name), in order.
pub open spec fn entities_from(entries: Seq<(bool, String)>) -> Seq<Seq<char>>
    decreases entries.len(),
{
    if entries.len() == 0 {
        Seq::empty()
    } else {
        let rest = entities_from(entries.drop_last());
        let (is_file, name) = entries.last();
        if is_file && entity_of(name@) is Some {
            rest.push(entity_of(name@)->0)
        } else {
            rest
        }
    }
}

/// The vault folders that are scanned for entities, in order.
pub fn entity_folders() -> (r: Vec<String>)
    ensures
        crate::text::texts(r@) == seq!["Person"@, "Projects"@],
{
    let r = vec![copy_text("Person"), copy_text("Projects")];
    assert(crate::text::texts(r@) =~= seq!["Person"@, "Projects"@]);
    r
}

/// The entity named by a file, if it is a markdown note.
pub fn entity_name(file_name: &str) -> (r: Option<String>)
    ensures
        match r {
            Some(e) => entity_of(file_name@) == Some(e@),
            None => entity_of(file_name@) is None,
        },
{
    if ends_with(file_name, ".md") {
        Some(trim_end_all(file_name, ".md"))
    } else {
        None
    }
}

/// The entities named by the walked entries: the markdown files, in order.
pub fn collect_entities(entries: &Vec<(bool, String)>) -> (r: Vec<String>)
    ensures
        crate::text::texts(r@) == entities_from(entries@),
{
    let mut r: Vec<String> = Vec::new();
    let mut i: usize = 0;
    while i < entries.len()
        invariant
            i <= entries.len(),
            crate::text::texts(r@) == entities_from(entries@.take(i as int)),
        decreases entries.len() - i,
    {
        let ghost before = r@;
        assert(entries@.take(i + 1).drop_last() =~= entries@.take(i as int));
        if entries[i].0 {
            match entity_name(entries[i].1.as_str()) {
                Some(e) => {
                    r.push(e);
                    assert(crate::text::texts(r@) =~= crate::text::texts(before).push(
                        r@.last()@,
                    ));
                },
                None => {},
            }
        }
        i = i + 1;
    }
    assert(entries@.take(entries.len() as int) =~= entries@);
    r
}

proof fn lemma_trim_leaves_no_suffix(s: Seq<char>, suffix: Seq<char>)
    requires
        suffix.len() > 0,
    ensures
        !has_suffix(trim_suffix_all(s, suffix), suffix),
    decreases s.len(),
{
    if has_suffix(s, suffix) {
        lemma_trim_leaves_no_suffix(s.take(s.len() - suffix.len()), suffix);
    }
}

/// No entity name ends in `.md`: the extension is removed however often it is
/// repeated.
pub proof fn lemma_entity_has_no_md_suffix(file_name: Seq<char>)
    ensures
        entity_of(file_name) matches Some(e) ==> !has_suffix(e, ".md"@),
{
    reveal_strlit(".md");
    lemma_trim_leaves_no_suffix(file_name, ".md"@);
}

} // verus!
