//! The files that expressions may name, held in memory. The library reads
//! no file itself: whoever calls it loads the texts and hands them over.
use crate::text::same_text;
use vstd::prelude::*;

verus! {

/// Texts by the path under which expressions name them.
#[derive(Debug)]
pub struct Files {
    pub entries: Vec<(String, String)>,
}

/// The text of the first entry under `path`, if there is one, looking from
/// entry `from` on.
pub open spec fn lookup(entries: Seq<(String, String)>, path: Seq<char>, from: int) -> Option<Seq<char>>
    decreases entries.len() - from,
{
    if from < 0 || from >= entries.len() {
        None
    } else if entries[from].0@ == path {
        Some(entries[from].1@)
    } else {
        lookup(entries, path, from + 1)
    }
}

/// Looking a path up among entries with one more behind them finds what was
/// found before, or else the new entry where it is under that path.
pub proof fn lemma_lookup_push(
    entries: Seq<(String, String)>,
    entry: (String, String),
    path: Seq<char>,
    from: int,
)
    requires
        0 <= from <= entries.len(),
    ensures
        lookup(entries.push(entry), path, from) == if lookup(entries, path, from) is Some {
            lookup(entries, path, from)
        } else if entry.0@ == path {
            Some(entry.1@)
        } else {
            None
        },
    decreases entries.len() - from,
{
    let more = entries.push(entry);
    if from < entries.len() {
        assert(more[from] == entries[from]);
        if entries[from].0@ != path {
            lemma_lookup_push(entries, entry, path, from + 1);
        }
    } else {
        assert(more[from] == entry);
        assert(lookup(more, path, from + 1) is None);
    }
}

impl Files {
    /// The text held under `path`, if any. Of several entries under one path
    /// the first counts.
    pub open spec fn text_at(&self, path: Seq<char>) -> Option<Seq<char>> {
        lookup(self.entries@, path, 0)
    }

    /// No file at all.
    pub fn new() -> (r: Self)
        ensures
            r.entries@.len() == 0,
            forall|path: Seq<char>| r.text_at(path) is None,
    {
        Files { entries: Vec::new() }
    }

    /// Adds the text of a file, behind those that are held already: a path
    /// that was there keeps its text, and `path` gets `text` where it was
    /// not there.
    pub fn add(&mut self, path: &str, text: &str)
        ensures
            final(self).entries@ == old(self).entries@.push(final(self).entries@.last()),
            final(self).entries@.last().0@ == path@,
            final(self).entries@.last().1@ == text@,
            forall|p: Seq<char>|
                #[trigger] final(self).text_at(p) == if old(self).text_at(p) is Some {
                    old(self).text_at(p)
                } else if p == path@ {
                    Some(text@)
                } else {
                    None
                },
    {
        self.entries.push((String::from_str(path), String::from_str(text)));
        assert(self.entries@ =~= old(self).entries@.push(self.entries@.last()));
        assert forall|p: Seq<char>|
            #[trigger] self.text_at(p) == if old(self).text_at(p) is Some {
                old(self).text_at(p)
            } else if p == path@ {
                Some(text@)
            } else {
                None
            } by {
            lemma_lookup_push(old(self).entries@, self.entries@.last(), p, 0);
        }
    }

    /// The text held under `path`, if any.
    pub fn get(&self, path: &str) -> (r: Option<&str>)
        ensures
            r is Some <==> self.text_at(path@) is Some,
            r is Some ==> r->0@ == self.text_at(path@)->0,
    {
        let mut i: usize = 0;
        while i < self.entries.len()
            invariant
                i <= self.entries.len(),
                self.text_at(path@) == lookup(self.entries@, path@, i as int),
            decreases self.entries.len() - i,
        {
            if same_text(self.entries[i].0.as_str(), path) {
                return Some(self.entries[i].1.as_str());
            }
            i += 1;
        }
        None
    }
}

} // verus!
