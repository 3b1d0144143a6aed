//! Named location bookmarks: a store ordered by name with case-insensitive
//! lookup and deletion, and the manager that knows where the store lives.
use vstd::prelude::*;

use crate::config::join_path;
use crate::text::{
    ascii_lower, concat, is_ascii_text, is_blank, lemma_trim_ascii, lemma_text_lt_irreflexive, lemma_text_lt_total,
    lemma_text_lt_transitive, lowercase, owned, same_text, text_less, text_lt, to_lowercase, trim,
    trim_text,
};

verus! {

/// Errors of bookmark handling; the I/O and JSON variants carry the message of
/// the failure that the caller met when reading or writing the store.
#[derive(Debug)]
pub enum BookmarkError {
    Io(String),
    Json(String),
    NotFound(String),
    EmptyName,
}

/// The message that a bookmark error shows.
pub open spec fn bookmark_error_text(e: BookmarkError) -> Seq<char> {
    match e {
        BookmarkError::Io(m) => "I/O error: "@ + m@,
        BookmarkError::Json(m) => "JSON serialization error: "@ + m@,
        BookmarkError::NotFound(n) => "Bookmark '"@ + n@ + "' not found"@,
        BookmarkError::EmptyName => "Bookmark name cannot be empty"@,
    }
}

impl BookmarkError {
    /// The message that the error shows.
    pub fn to_string(&self) -> (r: String)
        ensures
            r@ == bookmark_error_text(*self),
    {
        match self {
            BookmarkError::Io(m) => concat("I/O error: ", m.as_str()),
            BookmarkError::Json(m) => concat("JSON serialization error: ", m.as_str()),
            BookmarkError::NotFound(n) => {
                let mut r = concat("Bookmark '", n.as_str());
                r.append("' not found");
                r
            },
            BookmarkError::EmptyName => owned("Bookmark name cannot be empty"),
        }
    }
}

/// Knows where the bookmarks file lives.
pub struct BookmarkManager {
    path: String,
}

impl View for BookmarkManager {
    type V = Seq<char>;

    closed spec fn view(&self) -> Seq<char> {
        self.path@
    }
}

impl BookmarkManager {
    /// A manager for the default bookmarks file in the data directory.
    pub fn new(config_dir: &str) -> (r: BookmarkManager)
        ensures
            r@ == join_path(config_dir@, "bookmarks.json"@),
    {
        BookmarkManager { path: crate::config::AppPaths::bookmarks_file(config_dir) }
    }

    /// A manager for a bookmarks file at a given path.
    pub fn with_path(path: String) -> (r: BookmarkManager)
        ensures
            r@ == path@,
    {
        BookmarkManager { path }
    }

    /// The path of the bookmarks file.
    pub fn path(&self) -> (r: &str)
        ensures
            r@ == self@,
    {
        self.path.as_str()
    }
}

/// Whether the keys of a sequence of entries strictly increase.
pub open spec fn sorted_keys<V>(s: Seq<(Seq<char>, V)>) -> bool {
    forall|i: int, j: int| 0 <= i < j < s.len() ==> text_lt(#[trigger] s[i].0, #[trigger] s[j].0)
}

/// Whether a stored key answers to a name: equal after the name is trimmed
/// and both are lower-cased.
pub open spec fn key_matches(key: Seq<char>, name: Seq<char>) -> bool {
    lowercase(key) == lowercase(trim(name))
}

/// Whether a stored key answers to an ASCII name: equal after the name is
/// trimmed and the ASCII letters of both are lower-cased.
pub open spec fn ascii_key_matches(key: Seq<char>, name: Seq<char>) -> bool {
    ascii_lower(key) == ascii_lower(trim(name))
}

/// Whether every key of the entries is ASCII.
pub open spec fn ascii_keys<V>(s: Seq<(Seq<char>, V)>) -> bool {
    forall|i: int| 0 <= i < s.len() ==> is_ascii_text(#[trigger] s[i].0)
}

/// Whether `i` is the first entry whose key answers to the ASCII `name`.
pub open spec fn is_first_ascii_match<V>(s: Seq<(Seq<char>, V)>, name: Seq<char>, i: int) -> bool {
    &&& 0 <= i < s.len()
    &&& ascii_key_matches(s[i].0, name)
    &&& forall|j: int| 0 <= j < i ==> !ascii_key_matches(#[trigger] s[j].0, name)
}

/// Whether `i` is the first entry whose key answers to `name`.
pub open spec fn is_first_match<V>(s: Seq<(Seq<char>, V)>, name: Seq<char>, i: int) -> bool {
    &&& 0 <= i < s.len()
    &&& key_matches(s[i].0, name)
    &&& forall|j: int| 0 <= j < i ==> !key_matches(#[trigger] s[j].0, name)
}

/// Whether `new` is `old` with the entry `(key, value)` put in: it replaces
/// the entry with the same key if there is one, and the keys stay ordered.
pub open spec fn is_put<V>(old: Seq<(Seq<char>, V)>, key: Seq<char>, value: V, new: Seq<
    (Seq<char>, V),
>) -> bool {
    &&& sorted_keys(new)
    &&& new.contains((key, value))
    &&& forall|e: (Seq<char>, V)| #[trigger]
        new.contains(e) ==> e == (key, value) || (old.contains(e) && e.0 != key)
    &&& forall|e: (Seq<char>, V)| #[trigger] old.contains(e) && e.0 != key ==> new.contains(e)
}

/// The entries of `s` whose keys do not answer to `name`.
pub open spec fn without_name<V>(s: Seq<(Seq<char>, V)>, name: Seq<char>) -> Seq<(Seq<char>, V)> {
    s.filter(|e: (Seq<char>, V)| !key_matches(e.0, name))
}

/// The entries of `s` whose keys do not answer to the ASCII `name`.
pub open spec fn without_ascii_name<V>(s: Seq<(Seq<char>, V)>, name: Seq<char>) -> Seq<(Seq<char>, V)> {
    s.filter(|e: (Seq<char>, V)| !ascii_key_matches(e.0, name))
}

/// The views of a vector of entries.
pub open spec fn entry_views<V>(v: Seq<(String, V)>) -> Seq<(Seq<char>, V)> {
    v.map_values(|e: (String, V)| (e.0@, e.1))
}

/// The stored bookmarks, ordered by name.
///
/// The entries are a vector kept sorted by name, the order in which a
/// `BTreeMap<String, _>` holds them: with `String` keys, vstd's specification
/// of `BTreeMap` proves neither the length nor the keys after an `insert`, so
/// the order and the one-entry-per-name rule are this type's invariant instead.
pub struct Bookmarks<V> {
    entries: Vec<(String, V)>,
}

impl<V> View for Bookmarks<V> {
    type V = Seq<(Seq<char>, V)>;

    closed spec fn view(&self) -> Seq<(Seq<char>, V)> {
        entry_views(self.entries@)
    }
}

impl<V> Bookmarks<V> {
    #[verifier::type_invariant]
    closed spec fn ordered(self) -> bool {
        sorted_keys(entry_views(self.entries@))
    }

    /// No bookmarks.
    pub fn new() -> (r: Bookmarks<V>)
        ensures
            r@ == Seq::<(Seq<char>, V)>::empty(),
    {
        let r = Bookmarks { entries: Vec::new() };
        assert(entry_views(r.entries@) =~= Seq::<(Seq<char>, V)>::empty());
        r
    }

    /// The number of bookmarks.
    pub fn len(&self) -> (r: usize)
        ensures
            r == self@.len(),
    {
        self.entries.len()
    }

    /// Puts in a bookmark under an exact key, replacing one with that key.
    pub fn insert(&mut self, key: String, value: V)
        ensures
            is_put(old(self)@, key@, value, final(self)@),
    {
        proof {
            use_type_invariant(&*self);
        }
        let ghost old_s = self@;
        let n = self.entries.len();
        let mut p: usize = 0;
        while p < n && text_less(self.entries[p].0.as_str(), key.as_str())
            invariant
                n == self.entries.len(),
                old_s == self@,
                old_s == entry_views(self.entries@),
                p <= n,
                forall|j: int| 0 <= j < p ==> text_lt(#[trigger] old_s[j].0, key@),
            decreases n - p,
        {
            p = p + 1;
        }
        let ghost e = (key@, value);
        if p < n && self.entries[p].0 == key {
            let ghost new_s = old_s.update(p as int, e);
            proof {
                assert forall|i: int, j: int| 0 <= i < j < new_s.len() implies text_lt(
                    #[trigger] new_s[i].0,
                    #[trigger] new_s[j].0,
                ) by {
                    assert(text_lt(old_s[i].0, old_s[j].0));
                }
                assert forall|x: (Seq<char>, V)| #[trigger] new_s.contains(x) implies x == e || (
                old_s.contains(x) && x.0 != key@) by {
                    let k = choose|k: int| 0 <= k < new_s.len() && new_s[k] == x;
                    if k != p {
                        assert(old_s[k] == x);
                        if x.0 == key@ {
                            if k < p {
                                assert(text_lt(old_s[k].0, old_s[p as int].0));
                            } else {
                                assert(text_lt(old_s[p as int].0, old_s[k].0));
                            }
                            lemma_text_lt_irreflexive(key@);
                        }
                    }
                }
                assert forall|x: (Seq<char>, V)| #[trigger]
                    old_s.contains(x) && x.0 != key@ implies new_s.contains(x) by {
                    let k = choose|k: int| 0 <= k < old_s.len() && old_s[k] == x;
                    assert(new_s[k] == x);
                }
                assert(new_s[p as int] == e);
            }
            let mut es: Vec<(String, V)> = Vec::new();
            std::mem::swap(&mut es, &mut self.entries);
            es.set(p, (key, value));
            assert(entry_views(es@) =~= new_s);
            self.entries = es;
        } else {
            let ghost new_s = old_s.insert(p as int, e);
            proof {
                if p < n {
                    lemma_text_lt_total(key@, old_s[p as int].0);
                    assert(text_lt(key@, old_s[p as int].0));
                }
                assert forall|i: int, j: int| 0 <= i < j < new_s.len() implies text_lt(
                    #[trigger] new_s[i].0,
                    #[trigger] new_s[j].0,
                ) by {
                    if j < p {
                        assert(text_lt(old_s[i].0, old_s[j].0));
                    } else if j == p {
                        assert(text_lt(old_s[i].0, key@));
                    } else if i == p {
                        if j - 1 > p {
                            assert(text_lt(old_s[p as int].0, old_s[j - 1].0));
                            lemma_text_lt_transitive(key@, old_s[p as int].0, old_s[j - 1].0);
                        }
                    } else if i < p {
                        assert(text_lt(old_s[i].0, key@));
                        assert(text_lt(key@, old_s[p as int].0));
                        lemma_text_lt_transitive(old_s[i].0, key@, old_s[p as int].0);
                        if j - 1 > p {
                            assert(text_lt(old_s[p as int].0, old_s[j - 1].0));
                            lemma_text_lt_transitive(old_s[i].0, old_s[p as int].0, old_s[j - 1].0);
                        }
                    } else {
                        assert(text_lt(old_s[i - 1].0, old_s[j - 1].0));
                    }
                }
                assert forall|x: (Seq<char>, V)| #[trigger] new_s.contains(x) implies x == e || (
                old_s.contains(x) && x.0 != key@) by {
                    let k = choose|k: int| 0 <= k < new_s.len() && new_s[k] == x;
                    if k < p {
                        assert(old_s[k] == x);
                        lemma_text_lt_irreflexive(key@);
                    } else if k > p {
                        assert(old_s[k - 1] == x);
                        if x.0 == key@ {
                            if k - 1 == p {
                                lemma_text_lt_irreflexive(key@);
                            } else {
                                assert(text_lt(old_s[p as int].0, old_s[k - 1].0));
                                lemma_text_lt_transitive(key@, old_s[p as int].0, key@);
                                lemma_text_lt_irreflexive(key@);
                            }
                        }
                    }
                }
                assert forall|x: (Seq<char>, V)| #[trigger]
                    old_s.contains(x) && x.0 != key@ implies new_s.contains(x) by {
                    let k = choose|k: int| 0 <= k < old_s.len() && old_s[k] == x;
                    if k < p {
                        assert(new_s[k] == x);
                    } else {
                        assert(new_s[k + 1] == x);
                    }
                }
                assert(new_s[p as int] == e);
            }
            let mut es: Vec<(String, V)> = Vec::new();
            std::mem::swap(&mut es, &mut self.entries);
            es.insert(p, (key, value));
            assert(entry_views(es@) =~= new_s);
            self.entries = es;
        }
    }

    /// Saves a bookmark under the trimmed name; a blank name is refused.
    pub fn save(&mut self, name: &str, value: V) -> (r: Result<(), BookmarkError>)
        ensures
            is_blank(name@) ==> (r matches Err(BookmarkError::EmptyName)) && final(self)@ == old(
                self,
            )@,
            !is_blank(name@) ==> r is Ok && is_put(old(self)@, trim(name@), value, final(self)@),
    {
        let key = trim_text(name);
        if key.as_str().is_empty() {
            return Err(BookmarkError::EmptyName);
        }
        self.insert(key, value);
        Ok(())
    }

    /// The bookmark whose name answers to `name` case-insensitively; where
    /// several do, the first in name order.
    pub fn get(&self, name: &str) -> (r: Option<&V>)
        ensures
            r is None <==> forall|i: int| 0 <= i < self@.len() ==> !key_matches(#[trigger] self@[i].0, name@),
            r matches Some(v) ==> exists|i: int| is_first_match(self@, name@, i) && self@[i].1 == *v,
            is_ascii_text(name@) && ascii_keys(self@) ==> (r is None <==> forall|i: int|
                0 <= i < self@.len() ==> !ascii_key_matches(#[trigger] self@[i].0, name@)),
            is_ascii_text(name@) && ascii_keys(self@) ==> (r matches Some(v) ==> exists|i: int|
                is_first_ascii_match(self@, name@, i) && self@[i].1 == *v),
    {
        let t = trim_text(name);
        proof {
            if is_ascii_text(name@) {
                lemma_trim_ascii(name@);
            }
        }
        let wanted = to_lowercase(t.as_str());
        let ghost ascii = is_ascii_text(name@) && ascii_keys(self@);
        let mut i: usize = 0;
        while i < self.entries.len()
            invariant
                wanted@ == lowercase(trim(name@)),
                ascii ==> wanted@ == ascii_lower(trim(name@)),
                ascii == (is_ascii_text(name@) && ascii_keys(self@)),
                i <= self.entries.len(),
                self@ == entry_views(self.entries@),
                forall|j: int| 0 <= j < i ==> !key_matches(#[trigger] self@[j].0, name@),
                ascii ==> forall|j: int| 0 <= j < i ==> !ascii_key_matches(#[trigger] self@[j].0, name@),
            decreases self.entries.len() - i,
        {
            proof {
                if ascii {
                    assert(is_ascii_text(self@[i as int].0));
                }
            }
            let lower = to_lowercase(self.entries[i].0.as_str());
            if same_text(lower.as_str(), wanted.as_str()) {
                assert(is_first_match(self@, name@, i as int));
                assert(ascii ==> is_first_ascii_match(self@, name@, i as int));
                return Some(&self.entries[i].1);
            }
            assert(ascii ==> !ascii_key_matches(self@[i as int].0, name@));
            i = i + 1;
        }
        None
    }

    /// Removes every bookmark whose name answers to `name` case-insensitively,
    /// and tells whether there was one.
    pub fn delete(&mut self, name: &str) -> (r: bool)
        ensures
            final(self)@ == without_name(old(self)@, name@),
            r == exists|i: int| 0 <= i < old(self)@.len() && key_matches(#[trigger] old(self)@[i].0, name@),
            is_ascii_text(name@) && ascii_keys(old(self)@) ==> final(self)@ == without_ascii_name(
                old(self)@,
                name@,
            ),
            is_ascii_text(name@) && ascii_keys(old(self)@) ==> r == exists|i: int|
                0 <= i < old(self)@.len() && ascii_key_matches(#[trigger] old(self)@[i].0, name@),
    {
        proof {
            use_type_invariant(&*self);
        }
        let t = trim_text(name);
        proof {
            if is_ascii_text(name@) {
                lemma_trim_ascii(name@);
            }
        }
        let wanted = to_lowercase(t.as_str());
        let ghost old_s = self@;
        let ghost ascii = is_ascii_text(name@) && ascii_keys(old_s);
        let ghost pred = |e: (Seq<char>, V)| !key_matches(e.0, name@);
        let ghost apred = |e: (Seq<char>, V)| !ascii_key_matches(e.0, name@);
        let mut rest: Vec<(String, V)> = Vec::new();
        std::mem::swap(&mut rest, &mut self.entries);
        let mut kept: Vec<(String, V)> = Vec::new();
        let mut removed = false;
        let ghost mut c: int = 0;
        proof {
            assert(entry_views(rest@) =~= old_s.skip(0));
            assert(old_s.take(0).filter(pred) =~= Seq::<(Seq<char>, V)>::empty()) by {
                reveal(Seq::filter);
            }
            assert(old_s.take(0).filter(apred) =~= Seq::<(Seq<char>, V)>::empty()) by {
                reveal(Seq::filter);
            }
            assert(entry_views(kept@) =~= Seq::<(Seq<char>, V)>::empty());
        }
        while rest.len() > 0
            invariant
                wanted@ == lowercase(trim(name@)),
                sorted_keys(old_s),
                0 <= c <= old_s.len(),
                entry_views(rest@) == old_s.skip(c),
                entry_views(kept@) == old_s.take(c).filter(pred),
                sorted_keys(entry_views(kept@)),
                kept@.len() > 0 ==> forall|m: int| c <= m < old_s.len() ==> text_lt(
                    kept@.last().0@,
                    #[trigger] old_s[m].0,
                ),
                removed == exists|i: int| 0 <= i < c && key_matches(#[trigger] old_s[i].0, name@),
                pred == (|e: (Seq<char>, V)| !key_matches(e.0, name@)),
                apred == (|e: (Seq<char>, V)| !ascii_key_matches(e.0, name@)),
                ascii == (is_ascii_text(name@) && ascii_keys(old_s)),
                ascii ==> wanted@ == ascii_lower(trim(name@)),
                ascii ==> entry_views(kept@) == old_s.take(c).filter(apred),
                ascii ==> removed == exists|i: int|
                    0 <= i < c && ascii_key_matches(#[trigger] old_s[i].0, name@),
            decreases rest.len(),
        {
            let ghost rest_before = rest@;
            assert(entry_views(rest_before).len() == rest_before.len());
            assert(old_s.skip(c)[0] == old_s[c]);
            let entry = rest.remove(0);
            assert(old_s[c] == (entry.0@, entry.1)) by {
                assert(entry_views(rest_before)[0] == (rest_before[0].0@, rest_before[0].1));
            }
            assert(old_s.take(c + 1) =~= old_s.take(c).push(old_s[c]));
            proof {
                old_s.take(c).lemma_filter_push(old_s[c], pred);
                old_s.take(c).lemma_filter_push(old_s[c], apred);
                if ascii {
                    assert(is_ascii_text(old_s[c].0));
                }
            }
            let lower = to_lowercase(entry.0.as_str());
            if same_text(lower.as_str(), wanted.as_str()) {
                removed = true;
            } else {
                let ghost before = entry_views(kept@);
                kept.push(entry);
                proof {
                    assert(entry_views(kept@) =~= before.push(old_s[c]));
                    assert forall|i: int, j: int|
                        0 <= i < j < entry_views(kept@).len() implies text_lt(
                        #[trigger] entry_views(kept@)[i].0,
                        #[trigger] entry_views(kept@)[j].0,
                    ) by {
                        if j == before.len() {
                            if i < before.len() - 1 {
                                assert(text_lt(before[i].0, before.last().0));
                            }
                            assert(text_lt(before.last().0, old_s[c].0));
                            if i < before.len() - 1 {
                                lemma_text_lt_transitive(before[i].0, before.last().0, old_s[c].0);
                            }
                        }
                    }
                    assert forall|m: int| c + 1 <= m < old_s.len() implies text_lt(
                        kept@.last().0@,
                        #[trigger] old_s[m].0,
                    ) by {
                        assert(text_lt(old_s[c].0, old_s[m].0));
                    }
                }
            }
            proof {
                assert(entry_views(rest@) =~= entry_views(rest_before).drop_first());
                assert(entry_views(rest@) =~= old_s.skip(c + 1));
                c = c + 1;
            }
        }
        proof {
            assert(old_s.take(c) =~= old_s);
        }
        self.entries = kept;
        removed
    }

    /// The bookmarks, in name order, without giving up the store.
    pub fn list(&self) -> (r: &Vec<(String, V)>)
        ensures
            entry_views(r@) == self@,
            sorted_keys(entry_views(r@)),
    {
        proof {
            use_type_invariant(self);
        }
        &self.entries
    }

    /// All bookmarks, in name order.
    pub fn into_list(self) -> (r: Vec<(String, V)>)
        ensures
            entry_views(r@) == self@,
            sorted_keys(entry_views(r@)),
    {
        proof {
            use_type_invariant(&self);
        }
        self.entries
    }
}

/// A bookmark saved under a name is what a lookup of that name finds, in any
/// case and with surrounding white space, unless another stored name equals it
/// up to case (then the first of them in name order is found).
pub proof fn law_saved_bookmark_is_found<V>(
    old: Seq<(Seq<char>, V)>,
    name: Seq<char>,
    value: V,
    new: Seq<(Seq<char>, V)>,
    query: Seq<char>,
)
    requires
        is_put(old, trim(name), value, new),
        lowercase(trim(query)) == lowercase(trim(name)),
        forall|e: (Seq<char>, V)|
            #[trigger] old.contains(e) && e.0 != trim(name) ==> !key_matches(e.0, name),
    ensures
        exists|i: int| is_first_match(new, query, i) && new[i].1 == value,
{
    let e = (trim(name), value);
    let i = choose|i: int| 0 <= i < new.len() && new[i] == e;
    assert forall|j: int| 0 <= j < i implies !key_matches(#[trigger] new[j].0, query) by {
        assert(new.contains(new[j]));
        if new[j].0 == trim(name) {
            assert(text_lt(new[j].0, new[i].0));
            lemma_text_lt_irreflexive(trim(name));
        } else {
            assert(old.contains(new[j]));
        }
    }
    assert(is_first_match(new, query, i));
}

/// After a deletion, no bookmark answers to the deleted name.
pub proof fn law_deleted_bookmark_is_gone<V>(old: Seq<(Seq<char>, V)>, name: Seq<char>)
    ensures
        forall|i: int|
            0 <= i < without_name(old, name).len() ==> !key_matches(
                #[trigger] without_name(old, name)[i].0,
                name,
            ),
{
    let pred = |e: (Seq<char>, V)| !key_matches(e.0, name);
    assert forall|i: int| 0 <= i < without_name(old, name).len() implies !key_matches(
        #[trigger] without_name(old, name)[i].0,
        name,
    ) by {
        old.lemma_filter_pred(pred, i);
    }
}

/// A deletion keeps every bookmark that does not answer to the deleted name.
pub proof fn law_delete_keeps_others<V>(old: Seq<(Seq<char>, V)>, name: Seq<char>, e: (Seq<char>, V))
    requires
        old.contains(e),
        !key_matches(e.0, name),
    ensures
        without_name(old, name).contains(e),
{
    let pred = |x: (Seq<char>, V)| !key_matches(x.0, name);
    let i = choose|i: int| 0 <= i < old.len() && old[i] == e;
    old.lemma_filter_contains(pred, i);
}

/// Saving under a name that is already stored replaces its bookmark: the name
/// is stored once, with the new value.
pub proof fn law_save_replaces<V>(
    old: Seq<(Seq<char>, V)>,
    key: Seq<char>,
    value: V,
    new: Seq<(Seq<char>, V)>,
)
    requires
        is_put(old, key, value, new),
    ensures
        forall|i: int| 0 <= i < new.len() && #[trigger] new[i].0 == key ==> new[i].1 == value,
        forall|i: int, j: int| 0 <= i < j < new.len() ==> #[trigger] new[i].0 != #[trigger] new[j].0,
{
    assert forall|i: int| 0 <= i < new.len() && #[trigger] new[i].0 == key implies new[i].1 == value by {
        assert(new.contains(new[i]));
    }
    assert forall|i: int, j: int| 0 <= i < j < new.len() implies #[trigger] new[i].0 != #[trigger] new[j].0 by {
        assert(text_lt(new[i].0, new[j].0));
        lemma_text_lt_irreflexive(new[i].0);
    }
}

} // verus!
