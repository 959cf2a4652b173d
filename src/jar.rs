//! The cookie jar: cookies keyed by (name, domain, path), where inserting a
//! cookie whose identity is already stored replaces the stored one in place.
use vstd::prelude::*;
use vstd::string::StringExecFns;

verus! {

/// What a stored cookie is, as plain text.
pub struct CookieView {
    pub name: Seq<char>,
    pub value: Seq<char>,
    pub domain: Option<Seq<char>>,
    pub path: Option<Seq<char>>,
}

/// The identity under which a cookie is stored: name, domain and path.
pub type CookieKey = (Seq<char>, Option<Seq<char>>, Option<Seq<char>>);

pub open spec fn opt_text(o: Option<String>) -> Option<Seq<char>> {
    match o {
        Some(s) => Some(s@),
        None => None,
    }
}

pub open spec fn key_of(c: CookieView) -> CookieKey {
    (c.name, c.domain, c.path)
}

/// `name=value`, the form in which a cookie goes out in a `Cookie` header.
pub open spec fn pair_text(c: CookieView) -> Seq<char> {
    c.name + seq!['='] + c.value
}

/// The outgoing `Cookie` header for the cookies `s`: their pairs, in order,
/// separated by `;` with no space.
pub open spec fn header_text(s: Seq<CookieView>) -> Seq<char>
    decreases s.len(),
{
    if s.len() == 0 {
        Seq::empty()
    } else if s.len() == 1 {
        pair_text(s[0])
    } else {
        header_text(s.drop_last()) + seq![';'] + pair_text(s.last())
    }
}

/// The header text is empty exactly when there is no cookie.
pub proof fn lemma_header_empty_iff(s: Seq<CookieView>)
    ensures
        (header_text(s).len() == 0) <==> (s.len() == 0),
    decreases s.len(),
{
    if s.len() > 1 {
        lemma_header_empty_iff(s.drop_last());
    }
}

/// No two cookies of `s` share an identity.
pub open spec fn keys_unique(s: Seq<CookieView>) -> bool {
    forall|i: int, j: int|
        0 <= i < s.len() && 0 <= j < s.len() && i != j ==> key_of(#[trigger] s[i]) != key_of(
            #[trigger] s[j],
        )
}

pub open spec fn has_key(s: Seq<CookieView>, k: CookieKey) -> bool {
    exists|i: int| 0 <= i < s.len() && key_of(#[trigger] s[i]) == k
}

pub open spec fn holds(s: Seq<CookieView>, c: CookieView) -> bool {
    exists|i: int| 0 <= i < s.len() && #[trigger] s[i] == c
}

/// "Original" insertion: `c` replaces the cookie of the same identity where
/// there is one, and is appended otherwise.
pub open spec fn inserted(s: Seq<CookieView>, c: CookieView) -> Seq<CookieView> {
    if has_key(s, key_of(c)) {
        s.update(choose|i: int| 0 <= i < s.len() && key_of(#[trigger] s[i]) == key_of(c), c)
    } else {
        s.push(c)
    }
}

/// The cookies `cs` inserted into `s` one after another.
pub open spec fn inserted_all(s: Seq<CookieView>, cs: Seq<CookieView>) -> Seq<CookieView>
    decreases cs.len(),
{
    if cs.len() == 0 {
        s
    } else {
        inserted(inserted_all(s, cs.drop_last()), cs.last())
    }
}

/// A cookie with its name, value and the attributes that make up its identity.
pub struct StoredCookie {
    pub name: String,
    pub value: String,
    pub domain: Option<String>,
    pub path: Option<String>,
}

impl View for StoredCookie {
    type V = CookieView;

    open spec fn view(&self) -> CookieView {
        CookieView {
            name: self.name@,
            value: self.value@,
            domain: opt_text(self.domain),
            path: opt_text(self.path),
        }
    }
}

fn same_text(a: &Option<String>, b: &Option<String>) -> (r: bool)
    ensures
        r == (opt_text(*a) == opt_text(*b)),
{
    match (a, b) {
        (Some(x), Some(y)) => *x == *y,
        (None, None) => true,
        _ => false,
    }
}

impl StoredCookie {
    /// A cookie with no domain and no path.
    pub fn new(name: String, value: String) -> (r: StoredCookie)
        ensures
            r@ == (CookieView { name: name@, value: value@, domain: None, path: None }),
    {
        StoredCookie { name, value, domain: None, path: None }
    }

    pub fn same_identity(&self, other: &StoredCookie) -> (r: bool)
        ensures
            r == (key_of(self@) == key_of(other@)),
    {
        self.name == other.name && same_text(&self.domain, &other.domain)
            && same_text(&self.path, &other.path)
    }

    /// `name=value`.
    pub fn pair(&self) -> (r: String)
        ensures
            r@ == pair_text(self@),
    {
        let mut r = self.name.clone();
        proof {
            reveal_strlit("=");
        }
        r.append("=");
        r.append(self.value.as_str());
        r
    }
}

/// The cookies of one client, in order of first insertion, with unique
/// identities.
pub struct CookieJar {
    cookies: Vec<StoredCookie>,
}

impl View for CookieJar {
    type V = Seq<CookieView>;

    closed spec fn view(&self) -> Seq<CookieView> {
        self.cookies@.map_values(|c: StoredCookie| c@)
    }
}

impl CookieJar {
    pub open spec fn wf(&self) -> bool {
        keys_unique(self@)
    }

    pub fn new() -> (r: CookieJar)
        ensures
            r.wf(),
            r@ == Seq::<CookieView>::empty(),
    {
        CookieJar { cookies: Vec::new() }
    }

    pub fn len(&self) -> (r: usize)
        ensures
            r == self@.len(),
    {
        self.cookies.len()
    }

    pub fn get(&self, i: usize) -> (r: &StoredCookie)
        requires
            i < self@.len(),
        ensures
            r@ == self@[i as int],
    {
        &self.cookies[i]
    }

    /// Where a cookie with the identity of `c` is stored, if anywhere.
    pub fn position(&self, c: &StoredCookie) -> (r: Option<usize>)
        ensures
            match r {
                Some(i) => i < self@.len() && key_of(self@[i as int]) == key_of(c@),
                None => !has_key(self@, key_of(c@)),
            },
    {
        let mut i: usize = 0;
        while i < self.cookies.len()
            invariant
                i <= self@.len(),
                self@.len() == self.cookies@.len(),
                forall|j: int| 0 <= j < i ==> key_of(#[trigger] self@[j]) != key_of(c@),
            decreases self.cookies.len() - i,
        {
            if self.cookies[i].same_identity(c) {
                return Some(i);
            }
            i = i + 1;
        }
        None
    }

    /// "Original" insertion: `c` takes the place of the stored cookie with
    /// the same name, domain and path, or joins the jar at its end.
    pub fn add_original(&mut self, c: StoredCookie)
        requires
            old(self).wf(),
        ensures
            final(self).wf(),
            final(self)@ == inserted(old(self)@, c@),
    {
        let ghost cv = c@;
        match self.position(&c) {
            Some(i) => {
                proof {
                    let k = choose|j: int|
                        0 <= j < self@.len() && key_of(#[trigger] self@[j]) == key_of(cv);
                    assert(k == i as int);
                }
                self.cookies.set(i, c);
                assert(self@ =~= old(self)@.update(i as int, cv));
            },
            None => {
                self.cookies.push(c);
                assert(self@ =~= old(self)@.push(cv));
            },
        }
    }

    /// The outgoing `Cookie` header: every stored cookie as `name=value`,
    /// joined by `;`.
    pub fn cookie_header(&self) -> (r: String)
        ensures
            r@ == header_text(self@),
    {
        let mut r = String::new();
        let mut i: usize = 0;
        while i < self.cookies.len()
            invariant
                i <= self@.len(),
                self@.len() == self.cookies@.len(),
                r@ == header_text(self@.subrange(0, i as int)),
            decreases self.cookies.len() - i,
        {
            let p = self.cookies[i].pair();
            if i > 0 {
                proof {
                    reveal_strlit(";");
                }
                r.append(";");
            }
            r.append(p.as_str());
            proof {
                let s = self@.subrange(0, i + 1);
                assert(s.drop_last() =~= self@.subrange(0, i as int));
                assert(s.last() == self@[i as int]);
            }
            i = i + 1;
        }
        assert(self@.subrange(0, i as int) =~= self@);
        r
    }

    /// Inserts each of `cs` in turn, by "original" insertion.
    pub fn add_all(&mut self, cs: Vec<StoredCookie>)
        requires
            old(self).wf(),
        ensures
            final(self).wf(),
            final(self)@ == inserted_all(old(self)@, cs@.map_values(|c: StoredCookie| c@)),
    {
        let ghost start = self@;
        let ghost all = cs@.map_values(|c: StoredCookie| c@);
        let mut rest = cs;
        let total = rest.len();
        let mut n: usize = 0;
        while rest.len() > 0
            invariant
                self.wf(),
                n + rest@.len() == all.len(),
                all.len() == total,
                forall|j: int| 0 <= j < rest@.len() ==> #[trigger] rest@[j]@ == all[n + j],
                self@ == inserted_all(start, all.subrange(0, n as int)),
            decreases rest.len(),
        {
            let c = rest.remove(0);
            proof {
                let p = all.subrange(0, n + 1);
                assert(p.drop_last() =~= all.subrange(0, n as int));
                assert(p.last() == c@);
            }
            self.add_original(c);
            n = n + 1;
        }
        assert(all.subrange(0, n as int) =~= all);
    }
}


/// After "original" insertion of `c` the identities stay unique, `c` is
/// stored, every other stored cookie of another identity stays, and
/// nothing else comes in.
pub proof fn lemma_inserted(s: Seq<CookieView>, c: CookieView)
    requires
        keys_unique(s),
    ensures
        keys_unique(inserted(s, c)),
        holds(inserted(s, c), c),
        forall|x: CookieView| holds(s, x) && key_of(x) != key_of(c) ==> holds(inserted(s, c), x),
        forall|x: CookieView| holds(inserted(s, c), x) ==> x == c || holds(s, x),
{
    let t = inserted(s, c);
    if has_key(s, key_of(c)) {
        let k = choose|i: int| 0 <= i < s.len() && key_of(#[trigger] s[i]) == key_of(c);
        assert(t[k] == c);
        assert forall|x: CookieView| holds(s, x) && key_of(x) != key_of(c) implies holds(t, x) by {
            let j = choose|j: int| 0 <= j < s.len() && #[trigger] s[j] == x;
            assert(t[j] == x);
        }
        assert forall|x: CookieView| holds(t, x) implies x == c || holds(s, x) by {
            let j = choose|j: int| 0 <= j < t.len() && #[trigger] t[j] == x;
            if j != k {
                assert(s[j] == x);
            }
        }
    } else {
        assert(t[s.len() as int] == c);
        assert forall|x: CookieView| holds(s, x) && key_of(x) != key_of(c) implies holds(t, x) by {
            let j = choose|j: int| 0 <= j < s.len() && #[trigger] s[j] == x;
            assert(t[j] == x);
        }
        assert forall|x: CookieView| holds(t, x) implies x == c || holds(s, x) by {
            let j = choose|j: int| 0 <= j < t.len() && #[trigger] t[j] == x;
            if j < s.len() {
                assert(s[j] == x);
            }
        }
        assert forall|i: int, j: int|
            0 <= i < t.len() && 0 <= j < t.len() && i != j implies key_of(#[trigger] t[i])
            != key_of(#[trigger] t[j]) by {
            if i == s.len() {
                assert(key_of(s[j]) != key_of(c));
            } else if j == s.len() {
                assert(key_of(s[i]) != key_of(c));
            }
        }
    }
}

/// Receiving the same cookie twice leaves the jar as receiving it once.
pub proof fn lemma_insert_idempotent(s: Seq<CookieView>, c: CookieView)
    requires
        keys_unique(s),
    ensures
        inserted(inserted(s, c), c) == inserted(s, c),
{
    let t = inserted(s, c);
    lemma_inserted(s, c);
    assert(has_key(t, key_of(c))) by {
        let j = choose|j: int| 0 <= j < t.len() && #[trigger] t[j] == c;
        assert(key_of(t[j]) == key_of(c));
    }
    let k = choose|i: int| 0 <= i < t.len() && key_of(#[trigger] t[i]) == key_of(c);
    let j = choose|j: int| 0 <= j < t.len() && #[trigger] t[j] == c;
    assert(key_of(t[j]) == key_of(c));
    assert(k == j);
    assert(t.update(k, c) =~= t);
}

/// Merging the cookies `cs` into a jar keeps identities unique and leaves
/// in the jar each cookie of `cs` that no later cookie of `cs` replaces.
pub proof fn lemma_merge_keeps_latest(s: Seq<CookieView>, cs: Seq<CookieView>)
    requires
        keys_unique(s),
    ensures
        keys_unique(inserted_all(s, cs)),
        forall|i: int|
            0 <= i < cs.len() && (forall|j: int| i < j < cs.len() ==> key_of(#[trigger] cs[j]) != key_of(cs[i]))
                ==> holds(inserted_all(s, cs), #[trigger] cs[i]),
    decreases cs.len(),
{
    if cs.len() > 0 {
        let p = cs.drop_last();
        let c = cs.last();
        lemma_merge_keeps_latest(s, p);
        lemma_inserted(inserted_all(s, p), c);
        assert forall|i: int|
            0 <= i < cs.len() && (forall|j: int| i < j < cs.len() ==> key_of(#[trigger] cs[j]) != key_of(cs[i]))
                implies holds(inserted_all(s, cs), #[trigger] cs[i]) by {
            if i < cs.len() - 1 {
                assert(p[i] == cs[i]);
                assert forall|j: int| i < j < p.len() implies key_of(#[trigger] p[j]) != key_of(p[i]) by {
                    assert(p[j] == cs[j]);
                }
                assert(key_of(cs[cs.len() - 1]) != key_of(cs[i]));
            }
        }
    }
}

/// The text `pre + p + post` has `p` as one whole `;`-separated part.
pub open spec fn is_part(t: Seq<char>, pre: Seq<char>, p: Seq<char>, post: Seq<char>) -> bool {
    &&& t == pre + p + post
    &&& (pre.len() == 0 || pre.last() == ';')
    &&& (post.len() == 0 || post[0] == ';')
}

/// The pair of every cookie of `s` stands as a whole `;`-separated part in
/// the header text of `s`.
pub proof fn lemma_header_lists_cookie(s: Seq<CookieView>, i: int)
    requires
        0 <= i < s.len(),
    ensures
        exists|pre: Seq<char>, post: Seq<char>| is_part(header_text(s), pre, pair_text(s[i]), post),
    decreases s.len(),
{
    if s.len() == 1 {
        let e = Seq::<char>::empty();
        assert(header_text(s) =~= e + pair_text(s[i]) + e);
        assert(is_part(header_text(s), e, pair_text(s[i]), e));
    } else if i == s.len() - 1 {
        let pre = header_text(s.drop_last()) + seq![';'];
        let e = Seq::<char>::empty();
        assert(header_text(s) =~= pre + pair_text(s[i]) + e);
        assert(pre.last() == ';');
        assert(is_part(header_text(s), pre, pair_text(s[i]), e));
    } else {
        let p = s.drop_last();
        lemma_header_lists_cookie(p, i);
        let (pre, post) = choose|pre: Seq<char>, post: Seq<char>|
            is_part(header_text(p), pre, pair_text(p[i]), post);
        let post2 = post + seq![';'] + pair_text(s.last());
        assert(header_text(s) =~= pre + pair_text(s[i]) + post2);
        if post.len() == 0 {
            assert(post2[0] == ';');
        } else {
            assert(post2[0] == post[0]);
        }
        assert(is_part(header_text(s), pre, pair_text(s[i]), post2));
    }
}

/// A cookie added to the jar goes out, as a whole `;`-separated part, in
/// the header built next.
pub proof fn lemma_added_cookie_goes_out(s: Seq<CookieView>, c: CookieView)
    requires
        keys_unique(s),
    ensures
        exists|pre: Seq<char>, post: Seq<char>| is_part(header_text(inserted(s, c)), pre, pair_text(c), post),
{
    lemma_inserted(s, c);
    let t = inserted(s, c);
    let j = choose|j: int| 0 <= j < t.len() && #[trigger] t[j] == c;
    lemma_header_lists_cookie(t, j);
}

/// The last cookie of `cs` with identity `k`, if any.
pub open spec fn last_with_key(cs: Seq<CookieView>, k: CookieKey) -> Option<CookieView>
    decreases cs.len(),
{
    if cs.len() == 0 {
        None
    } else if key_of(cs.last()) == k {
        Some(cs.last())
    } else {
        last_with_key(cs.drop_last(), k)
    }
}

proof fn lemma_last_with_key(cs: Seq<CookieView>, k: CookieKey)
    ensures
        last_with_key(cs, k) matches Some(c) ==> key_of(c) == k,
        (exists|i: int| 0 <= i < cs.len() && key_of(#[trigger] cs[i]) == k) ==> last_with_key(cs, k) is Some,
    decreases cs.len(),
{
    if cs.len() > 0 {
        let p = cs.drop_last();
        lemma_last_with_key(p, k);
        if key_of(cs.last()) != k {
            if exists|i: int| 0 <= i < cs.len() && key_of(#[trigger] cs[i]) == k {
                let i = choose|i: int| 0 <= i < cs.len() && key_of(#[trigger] cs[i]) == k;
                assert(p[i] == cs[i]);
            }
        }
    }
}

/// After a merge, the last cookie of each identity among `cs` is stored.
proof fn lemma_merge_holds_last(s: Seq<CookieView>, cs: Seq<CookieView>, k: CookieKey)
    requires
        keys_unique(s),
    ensures
        keys_unique(inserted_all(s, cs)),
        last_with_key(cs, k) matches Some(c) ==> holds(inserted_all(s, cs), c),
    decreases cs.len(),
{
    lemma_merge_keeps_latest(s, cs);
    if cs.len() > 0 {
        let p = cs.drop_last();
        lemma_merge_holds_last(s, p, k);
        lemma_inserted(inserted_all(s, p), cs.last());
        lemma_last_with_key(p, k);
    }
}

/// Merging cookies whose identities are all stored already updates each
/// stored cookie in place to the last cookie of its identity.
proof fn lemma_merge_in_place(t: Seq<CookieView>, cs: Seq<CookieView>)
    requires
        keys_unique(t),
        forall|i: int| 0 <= i < cs.len() ==> has_key(t, key_of(#[trigger] cs[i])),
    ensures
        inserted_all(t, cs).len() == t.len(),
        forall|q: int| 0 <= q < t.len() ==> key_of(#[trigger] inserted_all(t, cs)[q]) == key_of(t[q]),
        forall|q: int|
            0 <= q < t.len() ==> #[trigger] inserted_all(t, cs)[q] == match last_with_key(cs, key_of(t[q])) {
                Some(c) => c,
                None => t[q],
            },
    decreases cs.len(),
{
    if cs.len() > 0 {
        let p = cs.drop_last();
        let c = cs.last();
        assert forall|i: int| 0 <= i < p.len() implies has_key(t, key_of(#[trigger] p[i])) by {
            assert(p[i] == cs[i]);
        }
        lemma_merge_in_place(t, p);
        let u = inserted_all(t, p);
        assert(keys_unique(u)) by {
            assert forall|i: int, j: int|
                0 <= i < u.len() && 0 <= j < u.len() && i != j implies key_of(#[trigger] u[i])
                != key_of(#[trigger] u[j]) by {
                assert(key_of(u[i]) == key_of(t[i]));
                assert(key_of(u[j]) == key_of(t[j]));
            }
        }
        assert(has_key(t, key_of(c)));
        let w = choose|i: int| 0 <= i < t.len() && key_of(#[trigger] t[i]) == key_of(c);
        assert(key_of(u[w]) == key_of(c));
        assert(has_key(u, key_of(c)));
        let k = choose|i: int| 0 <= i < u.len() && key_of(#[trigger] u[i]) == key_of(c);
        assert(inserted_all(t, cs) == u.update(k, c));
        assert forall|q: int| 0 <= q < t.len() implies #[trigger] inserted_all(t, cs)[q] == match last_with_key(cs, key_of(t[q])) {
            Some(x) => x,
            None => t[q],
        } by {
            if q != k {
                assert(key_of(u[q]) != key_of(u[k]));
            }
        }
    }
}

/// Merging the same cookies a second time leaves the jar as the first
/// merge left it.
pub proof fn lemma_merge_idempotent(s: Seq<CookieView>, cs: Seq<CookieView>)
    requires
        keys_unique(s),
    ensures
        inserted_all(inserted_all(s, cs), cs) == inserted_all(s, cs),
{
    let t = inserted_all(s, cs);
    lemma_merge_keeps_latest(s, cs);
    assert forall|i: int| 0 <= i < cs.len() implies has_key(t, key_of(#[trigger] cs[i])) by {
        lemma_last_with_key(cs, key_of(cs[i]));
        lemma_merge_holds_last(s, cs, key_of(cs[i]));
        let c = last_with_key(cs, key_of(cs[i]))->Some_0;
        let j = choose|j: int| 0 <= j < t.len() && #[trigger] t[j] == c;
        assert(key_of(t[j]) == key_of(cs[i]));
    }
    lemma_merge_in_place(t, cs);
    let u = inserted_all(t, cs);
    assert forall|q: int| 0 <= q < t.len() implies #[trigger] u[q] == t[q] by {
        let k = key_of(t[q]);
        lemma_last_with_key(cs, k);
        lemma_merge_holds_last(s, cs, k);
        if last_with_key(cs, k) is Some {
            let c = last_with_key(cs, k)->Some_0;
            let j = choose|j: int| 0 <= j < t.len() && #[trigger] t[j] == c;
            assert(key_of(t[j]) == k);
            assert(j == q);
        }
    }
    assert(u =~= t);
}

} // verus!
