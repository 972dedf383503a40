//! The on-disk studio workspace layout and validated policy identifiers.
//!
//! Policies are addressed by a validated [`PolicyId`] (the `.aion` filename stem), never by a
//! client-supplied path — so a request can never escape the policies directory. Paths are
//! plain `/`-separated strings; the application turns them into filesystem paths.

use vstd::prelude::*;

use crate::error::StudioError;
use crate::order::{lex_less, lex_lt, sorted_lex, lemma_lex_total, lemma_lex_transitive, lemma_lex_asymmetric};
use crate::text::{chars_of, push_char, string_of, views};

verus! {

/// A character allowed in a policy id: lower-case ASCII letter, ASCII digit, or `-`.
pub open spec fn is_id_char(c: char) -> bool {
    ('a' <= c && c <= 'z') || ('0' <= c && c <= '9') || c == '-'
}

/// A valid policy id: 1 to 64 characters, each an id character. (Every id character is a
/// single byte, so this is also the byte-length bound.)
pub open spec fn valid_id(s: Seq<char>) -> bool {
    &&& 1 <= s.len() <= 64
    &&& forall|i: int| 0 <= i < s.len() ==> is_id_char(#[trigger] s[i])
}

/// A validated policy identifier: `[a-z0-9-]`, 1..=64 chars. Used as the `.aion` filename stem;
/// the character whitelist is the path-traversal defense (no `/`, `.`, `..`, etc.).
#[derive(Debug, PartialEq, Eq)]
pub struct PolicyId(String);

impl View for PolicyId {
    type V = Seq<char>;

    closed spec fn view(&self) -> Seq<char> {
        self.0@
    }
}

impl Clone for PolicyId {
    fn clone(&self) -> (r: Self)
        ensures
            r@ == self@,
    {
        proof {
            use_type_invariant(self);
        }
        PolicyId(self.0.clone())
    }
}

fn is_id_char_exec(c: char) -> (b: bool)
    ensures
        b == is_id_char(c),
{
    ('a' <= c && c <= 'z') || ('0' <= c && c <= '9') || c == '-'
}

/// A valid id is a plain file name: it holds no `/` (so it cannot name another directory) and no
/// `.` (so it cannot be `.` or `..`, nor carry an extension of its own).
pub proof fn lemma_valid_id_is_plain_name(s: Seq<char>)
    requires
        valid_id(s),
    ensures
        forall|k: int| 0 <= k < s.len() ==> #[trigger] s[k] != '/' && s[k] != '.',
        !s.contains('/'),
        !s.contains('.'),
{
    assert forall|k: int| 0 <= k < s.len() implies #[trigger] s[k] != '/' && s[k] != '.' by {
        assert(is_id_char(s[k]));
    }
}

/// A valid policy id is 1 to 64 characters, each a lower-case ASCII letter (`a`..`z`, code
/// points 97..=122), an ASCII digit (`0`..`9`, 48..=57) or `-` (45), and every such text is
/// valid; an underscore, an upper-case letter, a dot, a slash or a space is never part of one.
pub proof fn lemma_valid_id_characters(s: Seq<char>)
    ensures
        valid_id(s) <==> (1 <= s.len() <= 64 && forall|k: int|
            0 <= k < s.len() ==> {
                let c = #[trigger] s[k] as int;
                (97 <= c <= 122) || (48 <= c <= 57) || c == 45
            }),
        valid_id(s) ==> !s.contains('_') && !s.contains('A') && !s.contains('Z') && !s.contains('.')
            && !s.contains('/') && !s.contains(' '),
{
    assert(valid_id(s) <==> (1 <= s.len() <= 64 && forall|k: int|
        0 <= k < s.len() ==> {
            let c = #[trigger] s[k] as int;
            (97 <= c <= 122) || (48 <= c <= 57) || c == 45
        })) by {
        assert forall|k: int| 0 <= k < s.len() implies (is_id_char(s[k]) <==> {
            let c = #[trigger] s[k] as int;
            (97 <= c <= 122) || (48 <= c <= 57) || c == 45
        }) by {}
    }
    if valid_id(s) {
        assert forall|k: int| 0 <= k < s.len() implies #[trigger] s[k] != '_' && s[k] != 'A'
            && s[k] != 'Z' && s[k] != '.' && s[k] != '/' && s[k] != ' ' by {
            assert(is_id_char(s[k]));
        }
    }
}

/// Whether `s` is a valid policy id.
pub fn is_valid_id(s: &str) -> (b: bool)
    ensures
        b == valid_id(s@),
{
    let cs = chars_of(s);
    if cs.len() < 1 || cs.len() > 64 {
        return false;
    }
    let mut i: usize = 0;
    while i < cs.len()
        invariant
            cs@ == s@,
            i <= cs.len(),
            forall|k: int| 0 <= k < i ==> is_id_char(#[trigger] cs@[k]),
        decreases cs.len() - i,
    {
        if !is_id_char_exec(cs[i]) {
            return false;
        }
        i = i + 1;
    }
    true
}

impl PolicyId {
    /// Every policy id is valid.
    #[verifier::type_invariant]
    spec fn well_formed(self) -> bool {
        valid_id(self.0@)
    }

    /// Validate `s` as a policy id. Rejected input comes back inside `InvalidId`.
    pub fn new(s: &str) -> (r: Result<PolicyId, StudioError>)
        ensures
            valid_id(s@) ==> (r matches Ok(id) && id@ == s@),
            !valid_id(s@) ==> (r matches Err(StudioError::InvalidId(t)) && t@ == s@),
    {
        if is_valid_id(s) {
            Ok(PolicyId(s.to_owned()))
        } else {
            Err(StudioError::InvalidId(s.to_owned()))
        }
    }

    /// The id as a string slice; it is always a valid id.
    pub fn as_str(&self) -> (s: &str)
        ensures
            s@ == self@,
            valid_id(s@),
    {
        proof {
            use_type_invariant(self);
        }
        self.0.as_str()
    }
}

// ---------------------------------------------------------------------------------------------
// Paths.
// ---------------------------------------------------------------------------------------------

/// `comp` appended to the path `base`, with one `/` between them (none is added after an empty
/// base or one that already ends in `/`).
pub open spec fn join(base: Seq<char>, comp: Seq<char>) -> Seq<char> {
    if base.len() == 0 {
        comp
    } else if base.last() == '/' {
        base + comp
    } else {
        base.push('/') + comp
    }
}

/// Join a relative component onto a path.
pub fn join_path(base: &str, comp: &str) -> (p: String)
    ensures
        p@ == join(base@, comp@),
{
    let cs = chars_of(base);
    let mut p = String::from_str(base);
    if cs.len() > 0 && cs[cs.len() - 1] != '/' {
        push_char(&mut p, '/');
    }
    p.append(comp);
    p
}

/// A studio data directory (default `studio-data/`).
#[derive(Clone, Debug)]
pub struct Workspace {
    root: String,
}

impl View for Workspace {
    type V = Seq<char>;

    closed spec fn view(&self) -> Seq<char> {
        self.root@
    }
}

impl Workspace {
    /// A workspace rooted at `root`.
    pub fn new(root: &str) -> (ws: Workspace)
        ensures
            ws@ == root@,
    {
        Workspace { root: String::from_str(root) }
    }

    /// The workspace root.
    pub fn root(&self) -> (r: &str)
        ensures
            r@ == self@,
    {
        self.root.as_str()
    }

    /// `<root>/policies`, where the `.aion` files live.
    pub fn policies_dir(&self) -> (p: String)
        ensures
            p@ == join(self@, "policies"@),
    {
        join_path(self.root.as_str(), "policies")
    }

    /// `<root>/keys`, the file vault.
    pub fn keys_dir(&self) -> (p: String)
        ensures
            p@ == join(self@, "keys"@),
    {
        join_path(self.root.as_str(), "keys")
    }

    /// `<root>/registry`, where the key registry and the author index live.
    pub fn registry_dir(&self) -> (p: String)
        ensures
            p@ == join(self@, "registry"@),
    {
        join_path(self.root.as_str(), "registry")
    }

    /// `<root>/registry/registry.json`, the persisted key registry.
    pub fn registry_path(&self) -> (p: String)
        ensures
            p@ == join(join(self@, "registry"@), "registry.json"@),
    {
        let dir = self.registry_dir();
        join_path(dir.as_str(), "registry.json")
    }

    /// `<root>/registry/authors.json`, the author index.
    pub fn authors_path(&self) -> (p: String)
        ensures
            p@ == join(join(self@, "registry"@), "authors.json"@),
    {
        let dir = self.registry_dir();
        join_path(dir.as_str(), "authors.json")
    }

    /// The `.aion` path for a validated id: `<root>/policies/<id>.aion`.
    pub fn policy_path(&self, id: &PolicyId) -> (p: String)
        ensures
            p@ == join(join(self@, "policies"@), id@ + ".aion"@),
    {
        let dir = self.policies_dir();
        let name = String::from_str(id.as_str()).concat(".aion");
        join_path(dir.as_str(), name.as_str())
    }

    /// The directories the workspace needs: policies, keys and registry.
    pub fn required_dirs(&self) -> (dirs: Vec<String>)
        ensures
            dirs@.len() == 3,
            dirs@[0]@ == join(self@, "policies"@),
            dirs@[1]@ == join(self@, "keys"@),
            dirs@[2]@ == join(self@, "registry"@),
    {
        let mut dirs = Vec::new();
        dirs.push(self.policies_dir());
        dirs.push(self.keys_dir());
        dirs.push(self.registry_dir());
        dirs
    }
}

// ---------------------------------------------------------------------------------------------
// Listing policies.
// ---------------------------------------------------------------------------------------------

/// The `.aion` file extension, with its dot.
pub open spec fn aion_suffix() -> Seq<char> {
    seq!['.', 'a', 'i', 'o', 'n']
}

/// The policy id a file name stands for: `<id>.aion` with a valid id; other names stand for none.
pub open spec fn stem_of(name: Seq<char>) -> Option<Seq<char>> {
    if name.len() >= 5 && name.subrange(name.len() - 5, name.len() as int) == aion_suffix()
        && valid_id(name.subrange(0, name.len() - 5)) {
        Some(name.subrange(0, name.len() - 5))
    } else {
        None
    }
}

/// The policy ids that the file names stand for, in the order of the names.
pub open spec fn policy_stems(names: Seq<Seq<char>>) -> Seq<Seq<char>>
    decreases names.len(),
{
    if names.len() == 0 {
        seq![]
    } else {
        let rest = policy_stems(names.drop_last());
        match stem_of(names.last()) {
            Some(s) => rest.push(s),
            None => rest,
        }
    }
}

/// The character sequences of a sequence of policy ids.
pub open spec fn id_views(v: Seq<PolicyId>) -> Seq<Seq<char>> {
    Seq::new(v.len(), |k: int| v[k]@)
}

/// The policy id that a file name stands for, if any.
fn stem_of_name(name: &String) -> (r: Option<PolicyId>)
    ensures
        r matches Some(id) ==> stem_of(name@) == Some(id@),
        r is None ==> stem_of(name@) is None,
{
    let cs = chars_of(name.as_str());
    let n = cs.len();
    if n < 5 || cs[n - 5] != '.' || cs[n - 4] != 'a' || cs[n - 3] != 'i' || cs[n - 2] != 'o'
        || cs[n - 1] != 'n' {
        assert(n >= 5 ==> cs@.subrange(n - 5, n as int) != aion_suffix()) by {
            if n >= 5 && cs@.subrange(n - 5, n as int) == aion_suffix() {
                assert(cs@.subrange(n - 5, n as int)[0] == cs@[n - 5]);
                assert(cs@.subrange(n - 5, n as int)[1] == cs@[n - 4]);
                assert(cs@.subrange(n - 5, n as int)[2] == cs@[n - 3]);
                assert(cs@.subrange(n - 5, n as int)[3] == cs@[n - 2]);
                assert(cs@.subrange(n - 5, n as int)[4] == cs@[n - 1]);
            }
        }
        return None;
    }
    assert(cs@.subrange(n - 5, n as int) =~= aion_suffix());
    let stem = string_of(&cs, n - 5);
    assert(cs@.take(n - 5) =~= cs@.subrange(0, n - 5));
    match PolicyId::new(stem.as_str()) {
        Ok(id) => Some(id),
        Err(_) => None,
    }
}

/// Insert `id` into a sorted vector of ids after every id that is not above it.
fn insert_sorted_id(v: &mut Vec<PolicyId>, id: PolicyId)
    requires
        sorted_lex(id_views(old(v)@)),
    ensures
        sorted_lex(id_views(final(v)@)),
        id_views(final(v)@).to_multiset() == id_views(old(v)@).to_multiset().insert(id@),
{
    let key = chars_of(id.as_str());
    let mut p: usize = 0;
    while p < v.len() && !lex_less(&key, &chars_of(v[p].as_str()))
        invariant
            p <= v.len(),
            v@ == old(v)@,
            key@ == id@,
            sorted_lex(id_views(v@)),
            forall|k: int| 0 <= k < p ==> !lex_lt(key@, #[trigger] id_views(v@)[k]),
        decreases v.len() - p,
    {
        p = p + 1;
    }
    let ghost before = id_views(v@);
    proof {
        if p < before.len() {
            assert(lex_lt(key@, before[p as int]));
        }
    }
    v.insert(p, id);
    let ghost after = id_views(v@);
    assert(after =~= before.insert(p as int, key@));
    assert forall|i: int, j: int| 0 <= i < j < after.len() implies !lex_lt(
        #[trigger] after[j],
        #[trigger] after[i],
    ) by {
        if i == p {
            let y = before[j - 1];
            if j - 1 > p {
                assert(!lex_lt(before[j - 1], before[p as int]));
                lemma_lex_total(before[p as int], y);
                if before[p as int] != y {
                    lemma_lex_transitive(key@, before[p as int], y);
                }
            }
            lemma_lex_asymmetric(key@, y);
        } else if j == p {
            assert(!lex_lt(key@, before[i]));
        } else if i < p && j > p {
            assert(!lex_lt(before[j - 1], before[i]));
        } else if j < p {
            assert(!lex_lt(before[j], before[i]));
        } else {
            assert(!lex_lt(before[j - 1], before[i - 1]));
        }
    }
    proof {
        vstd::seq_lib::to_multiset_insert(before, p as int, key@);
    }
}

/// The policy ids that a directory's file names stand for (`<id>.aion` with a valid id), sorted.
/// Other names are skipped.
pub fn ids_from_names(names: &Vec<String>) -> (ids: Vec<PolicyId>)
    ensures
        sorted_lex(id_views(ids@)),
        id_views(ids@).to_multiset() == policy_stems(views(names@)).to_multiset(),
{
    let mut ids: Vec<PolicyId> = Vec::new();
    let mut i: usize = 0;
    assert(id_views(ids@) =~= Seq::<Seq<char>>::empty());
    assert(views(names@).take(0) =~= Seq::<Seq<char>>::empty());
    proof {
        vstd::seq_lib::lemma_multiset_commutative(Seq::<Seq<char>>::empty(), Seq::<Seq<char>>::empty());
    }
    while i < names.len()
        invariant
            i <= names.len(),
            sorted_lex(id_views(ids@)),
            id_views(ids@).to_multiset() == policy_stems(views(names@).take(i as int)).to_multiset(),
        decreases names.len() - i,
    {
        let ghost prefix = views(names@).take(i as int);
        assert(views(names@).take(i + 1).drop_last() =~= prefix);
        assert(views(names@).take(i + 1).last() == names@[i as int]@);
        match stem_of_name(&names[i]) {
            Some(id) => {
                let ghost s = id@;
                insert_sorted_id(&mut ids, id);
                proof {
                    vstd::seq_lib::to_multiset_build(policy_stems(prefix), s);
                }
            },
            None => {},
        }
        i = i + 1;
    }
    assert(views(names@).take(names.len() as int) =~= views(names@));
    ids
}

} // verus!
