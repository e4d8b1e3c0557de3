//! Text templating with `{{key}}` placeholders.
//!
//! A template holds a body and a set of key/value bindings (keys unique, the
//! last `set` for a key wins). Rendering substitutes every bound placeholder
//! in a single pass — an inserted value is never re-scanned — and then strips
//! every placeholder that is still unbound, so rendered output never leaks
//! placeholder syntax.

use crate::push_char;
use vstd::prelude::*;

verus! {

/// A binding key: non-empty, and free of braces and newlines, so that a
/// placeholder `{{key}}` can be recognised unambiguously.
pub open spec fn valid_key(k: Seq<char>) -> bool {
    k.len() > 0 && forall|p: int|
        0 <= p < k.len() ==> k[p] != '{' && k[p] != '}' && k[p] != '\n'
}

/// The placeholder `{{k}}` occurs in `src` at position `i`.
pub open spec fn placeholder_at(src: Seq<char>, i: int, k: Seq<char>) -> bool {
    &&& 0 <= i
    &&& i + k.len() + 4 <= src.len()
    &&& src[i] == '{'
    &&& src[i + 1] == '{'
    &&& src.subrange(i + 2, i + 2 + k.len()) =~= k
    &&& src[i + 2 + k.len()] == '}'
    &&& src[i + 3 + k.len()] == '}'
}

/// Some bound key's placeholder occurs at position `i`.
pub open spec fn match_at(src: Seq<char>, m: Map<Seq<char>, Seq<char>>, i: int) -> bool {
    exists|k: Seq<char>| m.contains_key(k) && placeholder_at(src, i, k)
}

/// The bound key whose placeholder occurs at position `i`.
pub open spec fn key_at(src: Seq<char>, m: Map<Seq<char>, Seq<char>>, i: int) -> Seq<char> {
    choose|k: Seq<char>| m.contains_key(k) && placeholder_at(src, i, k)
}

/// All keys of a binding map are valid.
pub open spec fn valid_keys(m: Map<Seq<char>, Seq<char>>) -> bool {
    forall|k: Seq<char>| m.contains_key(k) ==> valid_key(k)
}

/// Two valid keys whose placeholders start at the same position are the same
/// key: were one a proper prefix of the other, the longer would contain `}`.
pub proof fn lemma_key_unique(
    src: Seq<char>,
    i: int,
    k1: Seq<char>,
    k2: Seq<char>,
)
    requires
        valid_key(k1),
        valid_key(k2),
        placeholder_at(src, i, k1),
        placeholder_at(src, i, k2),
    ensures
        k1 == k2,
{
    if k1.len() < k2.len() {
        assert(k2[k1.len() as int] == src[i + 2 + k1.len()]);
        assert(false);
    } else if k2.len() < k1.len() {
        assert(k1[k2.len() as int] == src[i + 2 + k2.len()]);
        assert(false);
    } else {
        assert(k1 =~= src.subrange(i + 2, i + 2 + k1.len()));
    }
}

/// Single-pass substitution of the bound placeholders into `src`, from
/// position `i` on. A substituted value is copied verbatim, not re-scanned.
pub open spec fn subst_from(src: Seq<char>, m: Map<Seq<char>, Seq<char>>, i: int) -> Seq<char>
    decreases src.len() - i,
{
    if i < 0 || i >= src.len() {
        Seq::empty()
    } else if match_at(src, m, i) {
        let k = key_at(src, m, i);
        m[k] + subst_from(src, m, i + k.len() + 4)
    } else {
        seq![src[i]] + subst_from(src, m, i + 1)
    }
}

/// The whole substituted body.
pub open spec fn subst(src: Seq<char>, m: Map<Seq<char>, Seq<char>>) -> Seq<char> {
    subst_from(src, m, 0)
}

/// A `}}` closing pair sits at position `j`.
pub open spec fn is_close(s: Seq<char>, j: int) -> bool {
    0 <= j && j + 2 <= s.len() && s[j] == '}' && s[j + 1] == '}'
}

/// `j` is the first closing pair that leaves a non-empty placeholder body
/// for an opening `{{` at `i`.
pub open spec fn first_close(s: Seq<char>, i: int, j: int) -> bool {
    &&& i + 3 <= j
    &&& is_close(s, j)
    &&& forall|j2: int| i + 3 <= j2 < j ==> !is_close(s, j2)
}

/// No newline among positions `from..to`.
pub open spec fn no_newline(s: Seq<char>, from: int, to: int) -> bool {
    forall|p: int| from <= p < to ==> s[p] != '\n'
}

/// A leftover placeholder to strip starts at `i`: `{{`, then at least one
/// newline-free character, then the nearest `}}`.
pub open spec fn strip_match(s: Seq<char>, i: int) -> bool {
    &&& 0 <= i
    &&& i + 2 <= s.len()
    &&& s[i] == '{'
    &&& s[i + 1] == '{'
    &&& exists|j: int| first_close(s, i, j) && no_newline(s, i + 2, j)
}

/// The position of the closing pair of the leftover placeholder at `i`.
pub open spec fn strip_end(s: Seq<char>, i: int) -> int {
    choose|j: int| first_close(s, i, j) && no_newline(s, i + 2, j)
}

/// Removal of every leftover placeholder from position `i` on.
pub open spec fn strip_from(s: Seq<char>, i: int) -> Seq<char>
    decreases s.len() - i,
{
    if i < 0 || i >= s.len() {
        Seq::empty()
    } else if strip_match(s, i) {
        strip_from(s, i + (strip_end(s, i) - i) + 2)
    } else {
        seq![s[i]] + strip_from(s, i + 1)
    }
}

/// What `render` returns: substitute every bound placeholder in one pass,
/// then strip every placeholder that is still left.
pub open spec fn render_text(src: Seq<char>, m: Map<Seq<char>, Seq<char>>) -> Seq<char> {
    strip_from(subst(src, m), 0)
}

/// The binding map a sequence of key/value pairs denotes: later pairs win.
pub open spec fn map_of_pairs(ps: Seq<(String, String)>) -> Map<Seq<char>, Seq<char>>
    decreases ps.len(),
{
    if ps.len() == 0 {
        Map::empty()
    } else {
        map_of_pairs(ps.drop_last()).insert(ps.last().0@, ps.last().1@)
    }
}

/// The binding map holds exactly the keys that occur among the pairs.
pub proof fn lemma_map_of_pairs_dom(ps: Seq<(String, String)>)
    ensures
        forall|k: Seq<char>|
            map_of_pairs(ps).contains_key(k) <==> exists|x: int|
                0 <= x < ps.len() && ps[x].0@ == k,
    decreases ps.len(),
{
    if ps.len() > 0 {
        lemma_map_of_pairs_dom(ps.drop_last());
        assert forall|k: Seq<char>| map_of_pairs(ps).contains_key(k) implies exists|x: int|
            0 <= x < ps.len() && ps[x].0@ == k by {
            if k == ps.last().0@ {
                assert(ps[ps.len() - 1].0@ == k);
            } else {
                assert(map_of_pairs(ps) == map_of_pairs(ps.drop_last()).insert(
                    ps.last().0@,
                    ps.last().1@,
                ));
                assert(map_of_pairs(ps.drop_last()).contains_key(k));
                let x = choose|x: int| 0 <= x < ps.drop_last().len() && ps.drop_last()[x].0@ == k;
                assert(ps.drop_last()[x] == ps[x]);
                assert(ps[x].0@ == k);
            }
        }
        assert forall|k: Seq<char>|
            (exists|x: int| 0 <= x < ps.len() && ps[x].0@ == k) implies map_of_pairs(
            ps,
        ).contains_key(k) by {
            let x = choose|x: int| 0 <= x < ps.len() && ps[x].0@ == k;
            assert(map_of_pairs(ps) == map_of_pairs(ps.drop_last()).insert(
                ps.last().0@,
                ps.last().1@,
            ));
            if x == ps.len() - 1 {
                assert(ps.last().0@ == k);
            } else {
                assert(ps.drop_last()[x] == ps[x]);
                assert(ps.drop_last()[x].0@ == k);
                assert(map_of_pairs(ps.drop_last()).contains_key(k));
            }
        }
    }
}

/// The value bound to a key is that of the last pair carrying it.
pub proof fn lemma_map_of_pairs_last(ps: Seq<(String, String)>, x: int)
    requires
        0 <= x < ps.len(),
        forall|y: int| x < y < ps.len() ==> ps[y].0@ != ps[x].0@,
    ensures
        map_of_pairs(ps).contains_key(ps[x].0@),
        map_of_pairs(ps)[ps[x].0@] == ps[x].1@,
    decreases ps.len(),
{
    if x == ps.len() - 1 {
    } else {
        assert(ps.drop_last()[x] == ps[x]);
        lemma_map_of_pairs_last(ps.drop_last(), x);
        assert(ps.last().0@ != ps[x].0@);
    }
}

/// At most one closing pair is the first one.
pub proof fn lemma_first_close_unique(s: Seq<char>, i: int, j1: int, j2: int)
    requires
        first_close(s, i, j1),
        first_close(s, i, j2),
    ensures
        j1 == j2,
{
    if j1 < j2 {
        assert(!is_close(s, j1));
    } else if j2 < j1 {
        assert(!is_close(s, j2));
    }
}

/// A template: a body with `{{key}}` placeholders and the bindings set so
/// far. Built with `load`, configured by chaining `set`, consumed by
/// `render`.
pub struct Template {
    body: String,
    bindings: Vec<(String, String)>,
}

impl Template {
    /// The template body.
    pub closed spec fn body_view(self) -> Seq<char> {
        self.body@
    }

    /// The bindings as a map; the last `set` of a key wins.
    pub closed spec fn bindings_map(self) -> Map<Seq<char>, Seq<char>> {
        map_of_pairs(self.bindings@)
    }

    /// Every binding key set so far is a valid key.
    pub closed spec fn wf(self) -> bool {
        forall|x: int| 0 <= x < self.bindings@.len() ==> valid_key(self.bindings@[x].0@)
    }

    /// Start a new template over `body`, with no bindings.
    pub fn load(body: &str) -> (r: Template)
        ensures
            r.wf(),
            r.body_view() == body@,
            r.bindings_map() == Map::<Seq<char>, Seq<char>>::empty(),
    {
        Template { body: String::from_str(body), bindings: Vec::new() }
    }

    /// Bind `key` to `value`, overriding any earlier binding of the same
    /// key; returns the template for chained configuration.
    pub fn set(self, key: &str, value: &str) -> (r: Template)
        requires
            self.wf(),
            valid_key(key@),
        ensures
            r.wf(),
            r.body_view() == self.body_view(),
            r.bindings_map() == self.bindings_map().insert(key@, value@),
    {
        let mut s = self;
        let ghost before = s.bindings@;
        s.bindings.push((String::from_str(key), String::from_str(value)));
        proof {
            assert(s.bindings@.drop_last() =~= before);
        }
        s
    }

    /// Whether the placeholder `{{k}}` occurs in `src` at `i`, checked
    /// character by character.
    fn placeholder_matches(src: &str, n: usize, i: usize, k: &str) -> (r: bool)
        requires
            n == src@.len(),
            i < n,
        ensures
            r == placeholder_at(src@, i as int, k@),
    {
        if n - i < 4 {
            return false;
        }
        let klen = k.unicode_len();
        if klen > n - i - 4 {
            return false;
        }
        if src.get_char(i) != '{' || src.get_char(i + 1) != '{' {
            return false;
        }
        if src.get_char(i + 2 + klen) != '}' || src.get_char(i + 3 + klen) != '}' {
            return false;
        }
        let mut p: usize = 0;
        while p < klen
            invariant
                n == src@.len(),
                klen == k@.len(),
                i + klen + 4 <= n,
                p <= klen,
                forall|q: int| 0 <= q < p ==> src@[i + 2 + q] == k@[q],
            decreases klen - p,
        {
            if src.get_char(i + 2 + p) != k.get_char(p) {
                proof {
                    assert(!placeholder_at(src@, i as int, k@)) by {
                        if placeholder_at(src@, i as int, k@) {
                            assert(src@.subrange(i + 2, i + 2 + k@.len())[p as int] == k@[p as int]);
                            assert(false);
                        }
                    }
                }
                return false;
            }
            p = p + 1;
        }
        proof {
            assert(src@.subrange(i + 2, i + 2 + k@.len()) =~= k@);
        }
        true
    }

    /// The index of the last binding whose placeholder occurs at `i`, if any.
    fn find_match(&self, n: usize, i: usize) -> (r: Option<usize>)
        requires
            n == self.body_view().len(),
            i < n,
        ensures
            match r {
                Option::Some(idx) => {
                    &&& idx < self.bindings@.len()
                    &&& placeholder_at(self.body_view(), i as int, self.bindings@[idx as int].0@)
                    &&& forall|x: int|
                        idx < x < self.bindings@.len() ==> !placeholder_at(
                            self.body_view(),
                            i as int,
                            self.bindings@[x].0@,
                        )
                },
                Option::None => forall|x: int|
                    0 <= x < self.bindings@.len() ==> !placeholder_at(
                        self.body_view(),
                        i as int,
                        self.bindings@[x].0@,
                    ),
            },
    {
        let mut idx = self.bindings.len();
        while idx > 0
            invariant
                n == self.body_view().len(),
                i < n,
                idx <= self.bindings@.len(),
                forall|x: int|
                    idx <= x < self.bindings@.len() ==> !placeholder_at(
                        self.body_view(),
                        i as int,
                        self.bindings@[x].0@,
                    ),
            decreases idx,
        {
            idx = idx - 1;
            let matched = Self::placeholder_matches(
                self.body.as_str(),
                n,
                i,
                self.bindings[idx].0.as_str(),
            );
            if matched {
                return Option::Some(idx);
            }
        }
        Option::None
    }

    /// The body with every bound placeholder substituted, in one pass.
    fn substituted(&self) -> (t: String)
        requires
            self.wf(),
        ensures
            t@ == subst(self.body_view(), self.bindings_map()),
    {
        let ghost src = self.body_view();
        let ghost m = self.bindings_map();
        let n = self.body.as_str().unicode_len();
        let mut t = String::new();
        let mut i: usize = 0;
        while i < n
            invariant
                self.wf(),
                src == self.body_view(),
                m == self.bindings_map(),
                n == src.len(),
                i <= n,
                t@ + subst_from(src, m, i as int) == subst(src, m),
            decreases n - i,
        {
            let ghost before = t@;
            let found = self.find_match(n, i);
            match found {
                Option::Some(idx) => {
                    let ghost k = self.bindings@[idx as int].0@;
                    proof {
                        lemma_map_of_pairs_dom(self.bindings@);
                        assert(m.contains_key(k));
                        assert(match_at(src, m, i as int));
                        let kc = key_at(src, m, i as int);
                        let x = choose|x: int| 0 <= x < self.bindings@.len()
                            && self.bindings@[x].0@ == kc;
                        lemma_key_unique(src, i as int, kc, k);
                        assert forall|y: int|
                            idx < y < self.bindings@.len() implies self.bindings@[y].0@ != k by {
                            if self.bindings@[y].0@ == k {
                                assert(!placeholder_at(src, i as int, self.bindings@[y].0@));
                            }
                        }
                        lemma_map_of_pairs_last(self.bindings@, idx as int);
                        assert(m[kc] == self.bindings@[idx as int].1@);
                    }
                    let klen = self.bindings[idx].0.as_str().unicode_len();
                    t.append(self.bindings[idx].1.as_str());
                    proof {
                        assert(subst_from(src, m, i as int) == m[key_at(src, m, i as int)]
                            + subst_from(src, m, i + k.len() + 4));
                        assert(t@ + subst_from(src, m, i + klen + 4) =~= before + subst_from(
                            src,
                            m,
                            i as int,
                        ));
                    }
                    i = i + klen + 4;
                },
                Option::None => {
                    proof {
                        assert(!match_at(src, m, i as int)) by {
                            if match_at(src, m, i as int) {
                                let kc = key_at(src, m, i as int);
                                lemma_map_of_pairs_dom(self.bindings@);
                                let x = choose|x: int| 0 <= x < self.bindings@.len()
                                    && self.bindings@[x].0@ == kc;
                                assert(!placeholder_at(src, i as int, self.bindings@[x].0@));
                            }
                        }
                    }
                    let c = self.body.as_str().get_char(i);
                    push_char(&mut t, c);
                    proof {
                        assert(subst_from(src, m, i as int) == seq![src[i as int]] + subst_from(
                            src,
                            m,
                            i + 1,
                        ));
                        assert(t@ + subst_from(src, m, i + 1) =~= before + subst_from(
                            src,
                            m,
                            i as int,
                        ));
                    }
                    i = i + 1;
                },
            }
        }
        proof {
            assert(subst_from(src, m, n as int) == Seq::<char>::empty());
            assert(t@ + Seq::<char>::empty() =~= t@);
        }
        t
    }

    /// `s` with every leftover placeholder removed.
    fn stripped(s: &str) -> (r: String)
        ensures
            r@ == strip_from(s@, 0),
    {
        let n = s.unicode_len();
        let mut out = String::new();
        let mut i: usize = 0;
        while i < n
            invariant
                n == s@.len(),
                i <= n,
                out@ + strip_from(s@, i as int) == strip_from(s@, 0),
            decreases n - i,
        {
            let ghost before = out@;
            let mut plain = true;
            if n - i >= 5 {
                if s.get_char(i) == '{' && s.get_char(i + 1) == '{' {
                    // look for the first closing pair after a non-empty body
                    let mut j: usize = i + 3;
                    let mut found = false;
                    while !found && j <= n - 2
                        invariant
                            n == s@.len(),
                            i + 5 <= n,
                            i + 3 <= j,
                            j <= n - 1,
                            forall|j2: int| i + 3 <= j2 < j ==> !is_close(s@, j2),
                            found ==> is_close(s@, j as int),
                        decreases n - j + (if found { 0int } else { 1int }),
                    {
                        if s.get_char(j) == '}' && s.get_char(j + 1) == '}' {
                            found = true;
                        } else {
                            j = j + 1;
                        }
                    }
                    if found {
                        // reject a newline inside the placeholder body
                        let mut p: usize = i + 2;
                        let mut clean = true;
                        while clean && p < j
                            invariant
                                n == s@.len(),
                                i + 2 <= p <= j,
                                j < n,
                                clean ==> no_newline(s@, i + 2, p as int),
                                !clean ==> exists|q: int| i + 2 <= q < j && s@[q] == '\n',
                            decreases j - p + (if clean { 1int } else { 0int }),
                        {
                            if s.get_char(p) == '\n' {
                                clean = false;
                            } else {
                                p = p + 1;
                            }
                        }
                        if clean {
                            proof {
                                assert(first_close(s@, i as int, j as int));
                                assert(strip_match(s@, i as int));
                                let jc = strip_end(s@, i as int);
                                lemma_first_close_unique(s@, i as int, jc, j as int);
                                assert(strip_from(s@, i as int) == strip_from(s@, j + 2));
                                assert(out@ + strip_from(s@, j + 2) == before + strip_from(
                                    s@,
                                    i as int,
                                ));
                            }
                            i = j + 2;
                            plain = false;
                        } else {
                            proof {
                                assert(!strip_match(s@, i as int)) by {
                                    if strip_match(s@, i as int) {
                                        let jc = choose|jx: int|
                                            first_close(s@, i as int, jx) && no_newline(
                                                s@,
                                                i + 2,
                                                jx,
                                            );
                                        assert(first_close(s@, i as int, j as int));
                                        lemma_first_close_unique(s@, i as int, jc, j as int);
                                        let q = choose|q: int| i + 2 <= q < j && s@[q] == '\n';
                                        assert(s@[q] != '\n');
                                    }
                                }
                            }
                        }
                    } else {
                        proof {
                            assert(!strip_match(s@, i as int)) by {
                                if strip_match(s@, i as int) {
                                    let jc = choose|jx: int|
                                        first_close(s@, i as int, jx) && no_newline(s@, i + 2, jx);
                                    assert(is_close(s@, jc));
                                    assert(!is_close(s@, jc));
                                }
                            }
                        }
                    }
                }
            }
            if plain {
                proof {
                    assert(!strip_match(s@, i as int)) by {
                        if strip_match(s@, i as int) {
                            let jc = choose|jx: int|
                                first_close(s@, i as int, jx) && no_newline(s@, i + 2, jx);
                            assert(first_close(s@, i as int, jc));
                        }
                    }
                    assert(strip_from(s@, i as int) == seq![s@[i as int]] + strip_from(s@, i + 1));
                }
                let c = s.get_char(i);
                push_char(&mut out, c);
                proof {
                    assert(out@ + strip_from(s@, i + 1) =~= before + strip_from(s@, i as int));
                }
                i = i + 1;
            }
        }
        proof {
            assert(strip_from(s@, n as int) == Seq::<char>::empty());
            assert(out@ + Seq::<char>::empty() =~= out@);
        }
        out
    }

    /// Render the template: substitute every bound `{{key}}` with its value
    /// in a single pass, then strip every placeholder left unbound.
    pub fn render(self) -> (r: String)
        requires
            self.wf(),
        ensures
            r@ == render_text(self.body_view(), self.bindings_map()),
    {
        let t = self.substituted();
        Self::stripped(t.as_str())
    }
}

} // verus!
