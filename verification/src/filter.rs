//! Sticky category filtering of captured log lines.
//!
//! A tagged line begins with the literal prefix `chatterino.` and carries its
//! category between the prefix and the first following `:`. The most recent
//! category sticks: untagged continuation lines inherit it.

use vstd::prelude::*;

use crate::str_ext::WStrExt;

verus! {

/// How the configured category set is applied: `Include` forwards only lines
/// whose category is in the set, `Exclude` forwards all others.
#[derive(Debug, Copy, Clone, PartialEq, Eq, Structural)]
pub enum FilterMode {
    Include,
    Exclude,
}

impl Default for FilterMode {
    fn default() -> (r: Self)
        ensures
            r == FilterMode::Exclude,
    {
        FilterMode::Exclude
    }
}

/// The literal prefix that marks a tagged log line, `chatterino.`, as code units.
pub open spec fn category_prefix() -> Seq<u16> {
    seq![
        'c' as u16,
        'h' as u16,
        'a' as u16,
        't' as u16,
        't' as u16,
        'e' as u16,
        'r' as u16,
        'i' as u16,
        'n' as u16,
        'o' as u16,
        '.' as u16,
    ]
}

/// The category carried by a line: the units between the prefix and the first
/// `:` after it. A line carries one only if it begins with the prefix, is more
/// than two units longer than the prefix, and has such a `:`; the category is
/// empty when the `:` stands directly after the prefix.
pub open spec fn extracted_category(line: Seq<u16>) -> Option<Seq<u16>> {
    let p = category_prefix();
    if p.is_prefix_of(line) && line.len() > p.len() + 2 {
        match line.skip(p.len() as int).index_of_first(':' as u16) {
            Some(pos) => Some(line.subrange(p.len() as int, p.len() + pos)),
            None => None,
        }
    } else {
        None
    }
}

/// The prefix as an executable buffer.
fn category_prefix_units() -> (r: Vec<u16>)
    ensures
        r@ == category_prefix(),
{
    let mut v: Vec<u16> = Vec::new();
    v.push('c' as u16);
    v.push('h' as u16);
    v.push('a' as u16);
    v.push('t' as u16);
    v.push('t' as u16);
    v.push('e' as u16);
    v.push('r' as u16);
    v.push('i' as u16);
    v.push('n' as u16);
    v.push('o' as u16);
    v.push('.' as u16);
    proof {
        assert(v@ =~= category_prefix());
    }
    v
}

/// Extract the log category of a line, if it carries one.
pub fn get_category(line: &[u16]) -> (r: Option<Vec<u16>>)
    ensures
        match r {
            Some(c) => extracted_category(line@) == Some(c@),
            None => extracted_category(line@) is None,
        },
{
    let prefix = category_prefix_units();
    let p_len = prefix.len();
    if !WStrExt::starts_with(line, prefix.as_slice()) || line.len() <= p_len + 2 {
        return None;
    }
    let ghost tail = line@.skip(p_len as int);
    proof {
        tail.index_of_first_ensures(':' as u16);
    }
    let mut pos: usize = p_len;
    while pos < line.len() && line[pos] != ':' as u16
        invariant
            p_len == category_prefix().len(),
            p_len <= pos <= line@.len(),
            tail == line@.skip(p_len as int),
            forall|j: int| p_len <= j < pos ==> line@[j] != ':' as u16,
        decreases line@.len() - pos,
    {
        pos = pos + 1;
    }
    if pos == line.len() {
        proof {
            assert forall|j: int| 0 <= j < tail.len() implies tail[j] != ':' as u16 by {
                assert(tail[j] == line@[p_len + j]);
            }
            if tail.index_of_first(':' as u16) is Some {
                let k = tail.index_of_first(':' as u16).unwrap();
                assert(tail[k] == ':' as u16);
            }
        }
        return None;
    }
    proof {
        assert(tail[pos - p_len] == ':' as u16);
        assert(tail.contains(':' as u16));
        let k = tail.index_of_first(':' as u16).unwrap();
        assert forall|j: int| 0 <= j < pos - p_len implies tail[j] != ':' as u16 by {
            assert(tail[j] == line@[p_len + j]);
        }
        assert(k == pos - p_len);
    }
    let mut cat: Vec<u16> = Vec::new();
    let mut j: usize = p_len;
    while j < pos
        invariant
            p_len <= j <= pos <= line@.len(),
            cat@ == line@.subrange(p_len as int, j as int),
        decreases pos - j,
    {
        cat.push(line[j]);
        proof {
            assert(cat@ =~= line@.subrange(p_len as int, j + 1 as int));
        }
        j = j + 1;
    }
    Some(cat)
}

/// The views of the configured category buffers.
pub open spec fn filter_views(filters: Seq<Vec<u16>>) -> Seq<Seq<u16>> {
    filters.map_values(|v: Vec<u16>| v@)
}

/// Whether a line with the given category is forwarded under a mode and a
/// category set: under `Exclude` everything outside the set passes, under
/// `Include` only the set passes. A category never seen in the set (the empty
/// one of untagged lines included) passes `Exclude` and fails `Include`.
pub open spec fn decision(mode: FilterMode, filters: Seq<Seq<u16>>, category: Seq<u16>) -> bool {
    match mode {
        FilterMode::Include => filters.contains(category),
        FilterMode::Exclude => !filters.contains(category),
    }
}

/// Unit-by-unit equality of two wide strings.
fn units_eq(a: &[u16], b: &[u16]) -> (r: bool)
    ensures
        r == (a@ == b@),
{
    if a.len() != b.len() {
        return false;
    }
    let mut i: usize = 0;
    while i < a.len()
        invariant
            a@.len() == b@.len(),
            i <= a@.len(),
            forall|j: int| 0 <= j < i ==> a@[j] == b@[j],
        decreases a@.len() - i,
    {
        if a[i] != b[i] {
            return false;
        }
        i = i + 1;
    }
    proof {
        assert(a@ =~= b@);
    }
    true
}

/// Membership of a category in the configured set.
fn contains_category(filters: &Vec<Vec<u16>>, category: &[u16]) -> (r: bool)
    ensures
        r == filter_views(filters@).contains(category@),
{
    let mut i: usize = 0;
    while i < filters.len()
        invariant
            i <= filters@.len(),
            forall|j: int| 0 <= j < i ==> filter_views(filters@)[j] != category@,
        decreases filters@.len() - i,
    {
        if units_eq(filters[i].as_slice(), category) {
            proof {
                assert(filter_views(filters@)[i as int] == category@);
            }
            return true;
        }
        i = i + 1;
    }
    proof {
        if filter_views(filters@).contains(category@) {
            let k = choose|k: int|
                0 <= k < filter_views(filters@).len() && filter_views(filters@)[k] == category@;
            assert(filter_views(filters@)[k] != category@);
        }
    }
    false
}

/// Decide whether a line carrying `category` is forwarded.
pub fn include_category(category: &[u16], mode: FilterMode, filters: &Vec<Vec<u16>>) -> (r: bool)
    ensures
        r == decision(mode, filter_views(filters@), category@),
{
    let member = contains_category(filters, category);
    match mode {
        FilterMode::Exclude => !member,
        FilterMode::Include => member,
    }
}

/// The category filter: the mode and set are fixed for a run, the current
/// category is sticky state updated by each observed line.
pub struct Filter {
    pub mode: FilterMode,
    pub categories: Vec<Vec<u16>>,
    pub current_category: Vec<u16>,
}

impl Filter {
    /// The views of the configured categories.
    pub open spec fn category_views(&self) -> Seq<Seq<u16>> {
        filter_views(self.categories@)
    }

    /// The sticky category left behind by a line: a tagged line's own tag;
    /// an untagged line keeps the current one.
    pub open spec fn next_category(current: Seq<u16>, line: Seq<u16>) -> Seq<u16> {
        match extracted_category(line) {
            Some(c) => c,
            None => current,
        }
    }

    /// Decide an explicit category under this filter's mode and set.
    pub fn should_print(&self, category: &[u16]) -> (r: bool)
        ensures
            r == decision(self.mode, self.category_views(), category@),
    {
        include_category(category, self.mode, &self.categories)
    }

    /// Observe a line: a tagged line overwrites the sticky current category.
    pub fn update(&mut self, line: &[u16])
        ensures
            final(self).mode == old(self).mode,
            final(self).categories == old(self).categories,
            final(self).current_category@ == Self::next_category(
                old(self).current_category@,
                line@,
            ),
    {
        match get_category(line) {
            Some(c) => {
                self.current_category = c;
            },
            None => {},
        }
    }

    /// Decide the sticky current category.
    pub fn should_print_current(&self) -> (r: bool)
        ensures
            r == decision(self.mode, self.category_views(), self.current_category@),
    {
        include_category(self.current_category.as_slice(), self.mode, &self.categories)
    }

    /// Observe one captured line and decide whether to forward it.
    pub fn observe(&mut self, line: &[u16]) -> (r: bool)
        ensures
            final(self).mode == old(self).mode,
            final(self).categories == old(self).categories,
            final(self).current_category@ == Self::next_category(
                old(self).current_category@,
                line@,
            ),
            r == decision(
                old(self).mode,
                old(self).category_views(),
                Self::next_category(old(self).current_category@, line@),
            ),
    {
        self.update(line);
        self.should_print_current()
    }
}

/// Sticky category law: an untagged continuation line is decided exactly as
/// the line before it was.
pub proof fn lemma_sticky_category(
    mode: FilterMode,
    filters: Seq<Seq<u16>>,
    current: Seq<u16>,
    tagged: Seq<u16>,
    untagged: Seq<u16>,
)
    requires
        extracted_category(untagged) is None,
    ensures
        decision(
            mode,
            filters,
            Filter::next_category(Filter::next_category(current, tagged), untagged),
        ) == decision(mode, filters, Filter::next_category(current, tagged)),
{
}

/// A line `chatterino.<cat>:<rest>` carries exactly `<cat>`, whenever the tag
/// part is colon-free and the line is long enough to carry a tag at all.
pub proof fn lemma_extract_tagged_line(cat: Seq<u16>, rest: Seq<u16>)
    requires
        !cat.contains(':' as u16),
        cat.len() + rest.len() >= 3,
    ensures
        extracted_category(category_prefix() + cat + seq![':' as u16] + rest) == Some(cat),
{
    let p = category_prefix();
    let line = p + cat + seq![':' as u16] + rest;
    assert(p.is_prefix_of(line)) by {
        assert(p =~= line.subrange(0, p.len() as int));
    }
    let tail = line.skip(p.len() as int);
    assert(tail =~= cat + seq![':' as u16] + rest);
    tail.index_of_first_ensures(':' as u16);
    assert(tail[cat.len() as int] == ':' as u16);
    assert(tail.contains(':' as u16));
    let k = tail.index_of_first(':' as u16).unwrap();
    assert(k <= cat.len());
    assert(k >= cat.len()) by {
        if k < cat.len() {
            assert(tail[k] == cat[k]);
            assert(cat.contains(':' as u16));
        }
    }
    assert(line.subrange(p.len() as int, p.len() as int + cat.len()) =~= cat);
}

/// A line `chatterino.<tail>` whose tail has no colon carries no category.
pub proof fn lemma_extract_no_colon(tail: Seq<u16>)
    requires
        !tail.contains(':' as u16),
    ensures
        extracted_category(category_prefix() + tail) is None,
{
    let p = category_prefix();
    let line = p + tail;
    if p.is_prefix_of(line) && line.len() > p.len() + 2 {
        assert(line.skip(p.len() as int) =~= tail);
        tail.index_of_first_ensures(':' as u16);
        if tail.index_of_first(':' as u16) is Some {
            let k = tail.index_of_first(':' as u16).unwrap();
            assert(tail[k] == ':' as u16);
            assert(tail.contains(':' as u16));
        }
    }
}

/// A line that does not begin with the prefix carries no category.
pub proof fn lemma_extract_unprefixed(line: Seq<u16>)
    requires
        !category_prefix().is_prefix_of(line),
    ensures
        extracted_category(line) is None,
{
}

} // verus!
