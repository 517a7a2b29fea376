//! The variant store: opaque byte blobs keyed by a resource name plus an
//! optional country qualifier, with deterministic fallback to the default
//! (unqualified) variant.
//!
//! The store is modelled as a map from composed keys (`name` for the default
//! variant, `qualifier-name` for a qualified one) to byte sequences. The
//! concrete state is an append-only list of entries where the last write to
//! a key wins; the view collapses it to the map.

use vstd::prelude::*;
use vstd::string::StrSliceExecFns;
use vstd::string::StringExecFns;

verus! {

/// Outcome of a failed store operation.
///
/// `NotFound` is the business outcome "this resource family has no default
/// variant"; `IOFailure` covers operational failures, including a rejected
/// (path-traversal-prone) name or qualifier.
#[derive(Clone, Copy, Debug, PartialEq, Eq, Structural)]
pub enum StoreError {
    NotFound,
    IOFailure,
}

/// A character that would act as a path separator if a name were spliced
/// into a filesystem path.
pub open spec fn is_path_sep(c: char) -> bool {
    c == '/' || c == '\\'
}

/// A valid resource name: non-empty, free of path separators, and not a
/// relative-path segment.
pub open spec fn valid_name(s: Seq<char>) -> bool {
    &&& s.len() > 0
    &&& (forall|i: int| 0 <= i < s.len() ==> !is_path_sep(#[trigger] s[i]))
    &&& s != seq!['.']
    &&& s != seq!['.', '.']
}

/// A valid qualifier (short country code): non-empty and free of path
/// separators.
pub open spec fn valid_qualifier(s: Seq<char>) -> bool {
    &&& s.len() > 0
    &&& (forall|i: int| 0 <= i < s.len() ==> !is_path_sep(#[trigger] s[i]))
}

/// A request is valid when the name is valid and the qualifier, if any, is.
pub open spec fn valid_request(name: Seq<char>, q: Option<Seq<char>>) -> bool {
    &&& valid_name(name)
    &&& match q {
        Some(qs) => valid_qualifier(qs),
        None => true,
    }
}

/// The composed storage key: the name alone addresses the default variant,
/// `qualifier-name` addresses a qualified one. All keys are siblings in one
/// flat namespace.
pub open spec fn variant_key(name: Seq<char>, q: Option<Seq<char>>) -> Seq<char> {
    match q {
        Some(qs) => qs + seq!['-'] + name,
        None => name,
    }
}

/// What a read must return, given the store contents: reject invalid
/// requests; require the default variant as an existence gate; then prefer
/// the qualified variant and fall back to the default one.
pub open spec fn read_spec(
    m: Map<Seq<char>, Seq<u8>>,
    name: Seq<char>,
    q: Option<Seq<char>>,
) -> Result<Seq<u8>, StoreError> {
    if !valid_request(name, q) {
        Err(StoreError::IOFailure)
    } else if !m.dom().contains(name) {
        Err(StoreError::NotFound)
    } else if q is Some && m.dom().contains(variant_key(name, q)) {
        Ok(m[variant_key(name, q)])
    } else {
        Ok(m[name])
    }
}

/// Checks a candidate resource name against `valid_name`.
pub fn check_name(s: &str) -> (r: bool)
    ensures
        r == valid_name(s@),
{
    let n = s.unicode_len();
    if n == 0 {
        return false;
    }
    let mut i: usize = 0;
    while i < n
        invariant
            0 < n == s@.len(),
            0 <= i <= n,
            forall|j: int| 0 <= j < i ==> !is_path_sep(#[trigger] s@[j]),
        decreases n - i,
    {
        let c = s.get_char(i);
        if c == '/' || c == '\\' {
            return false;
        }
        i += 1;
    }
    if n == 1 {
        let c = s.get_char(0);
        if c == '.' {
            proof {
                assert(s@ =~= seq!['.']);
            }
            return false;
        }
        return true;
    }
    if n == 2 {
        let c0 = s.get_char(0);
        let c1 = s.get_char(1);
        if c0 == '.' && c1 == '.' {
            proof {
                assert(s@ =~= seq!['.', '.']);
            }
            return false;
        }
        return true;
    }
    true
}

/// Checks a candidate qualifier against `valid_qualifier`.
pub fn check_qualifier(s: &str) -> (r: bool)
    ensures
        r == valid_qualifier(s@),
{
    let n = s.unicode_len();
    if n == 0 {
        return false;
    }
    let mut i: usize = 0;
    while i < n
        invariant
            0 < n == s@.len(),
            0 <= i <= n,
            forall|j: int| 0 <= j < i ==> !is_path_sep(#[trigger] s@[j]),
        decreases n - i,
    {
        let c = s.get_char(i);
        if c == '/' || c == '\\' {
            return false;
        }
        i += 1;
    }
    true
}

/// Builds the composed storage key for a name and an optional qualifier.
pub fn make_key(name: &str, qualifier: Option<&str>) -> (r: String)
    ensures
        r@ == variant_key(name@, qualifier.deep_view()),
{
    match qualifier {
        Some(q) => {
            let mut k = q.to_owned();
            k.append("-");
            k.append(name);
            proof {
                reveal_strlit("-");
                assert(k@ =~= q@ + seq!['-'] + name@);
            }
            k
        },
        None => name.to_owned(),
    }
}

/// The map described by an entry list: later entries shadow earlier ones.
pub open spec fn entries_map(es: Seq<(String, Vec<u8>)>) -> Map<Seq<char>, Seq<u8>>
    decreases es.len(),
{
    if es.len() == 0 {
        Map::empty()
    } else {
        entries_map(es.drop_last()).insert(es.last().0@, es.last().1@)
    }
}

/// A key absent from every entry is absent from the map.
proof fn lemma_entries_map_absent(es: Seq<(String, Vec<u8>)>, k: Seq<char>)
    requires
        forall|j: int| 0 <= j < es.len() ==> (#[trigger] es[j]).0@ != k,
    ensures
        !entries_map(es).dom().contains(k),
    decreases es.len(),
{
    if es.len() > 0 {
        lemma_entries_map_absent(es.drop_last(), k);
    }
}

/// The entry that matches a key last determines the map's value at that key.
proof fn lemma_entries_map_last(es: Seq<(String, Vec<u8>)>, k: Seq<char>, i: int)
    requires
        0 <= i < es.len(),
        es[i].0@ == k,
        forall|j: int| i < j < es.len() ==> (#[trigger] es[j]).0@ != k,
    ensures
        entries_map(es).dom().contains(k),
        entries_map(es)[k] == es[i].1@,
    decreases es.len(),
{
    if i < es.len() - 1 {
        lemma_entries_map_last(es.drop_last(), k, i);
    }
}

/// The base location a store stands for; opaque here, only carried.
/// Relies on std::path::PathBuf being an ordinary owned type.
#[verifier::external_type_specification]
#[verifier::external_body]
pub struct ExPathBuf(std::path::PathBuf);

/// In-memory content store for named resources with country-qualified
/// variants. Reads apply the deterministic fallback of `read_spec`; the
/// `path` records the base location the contents stand for.
pub struct ImageStore {
    path: std::path::PathBuf,
    entries: Vec<(String, Vec<u8>)>,
}

impl View for ImageStore {
    type V = Map<Seq<char>, Seq<u8>>;

    closed spec fn view(&self) -> Map<Seq<char>, Seq<u8>> {
        entries_map(self.entries@)
    }
}

impl ImageStore {
    /// Creates an empty store rooted at the given base location.
    pub fn new(path: std::path::PathBuf) -> (r: ImageStore)
        ensures
            r@ == Map::<Seq<char>, Seq<u8>>::empty(),
    {
        ImageStore { path, entries: Vec::new() }
    }

    /// Looks a key up exactly, without any fallback: the last stored blob
    /// under that key, if any.
    pub fn lookup_exact(&self, key: &String) -> (r: Option<Vec<u8>>)
        ensures
            match r {
                Some(v) => self@.dom().contains(key@) && self@[key@] == v@,
                None => !self@.dom().contains(key@),
            },
    {
        let mut i: usize = self.entries.len();
        while i > 0
            invariant
                0 <= i <= self.entries.len(),
                forall|j: int|
                    i <= j < self.entries@.len() ==> (#[trigger] self.entries@[j]).0@ != key@,
            decreases i,
        {
            i = i - 1;
            if self.entries[i].0 == *key {
                let v = self.entries[i].1.clone();
                proof {
                    lemma_entries_map_last(self.entries@, key@, i as int);
                }
                return Some(v);
            }
        }
        proof {
            lemma_entries_map_absent(self.entries@, key@);
        }
        None
    }

    /// Stores `image` as the variant of `name` addressed by the optional
    /// qualifier, overwriting exactly that address; a name or qualifier that
    /// could escape the store's namespace is rejected as an `IOFailure` and
    /// leaves the store unchanged.
    pub fn store_image(
        &mut self,
        name: &str,
        image: Vec<u8>,
        country_short: Option<&str>,
    ) -> (r: Result<(), StoreError>)
        ensures
            r is Ok <==> valid_request(name@, country_short.deep_view()),
            r is Ok ==> final(self)@ == old(self)@.insert(
                variant_key(name@, country_short.deep_view()),
                image@,
            ),
            r is Err ==> final(self)@ == old(self)@ && r == Err::<(), StoreError>(
                StoreError::IOFailure,
            ),
    {
        if !check_name(name) {
            return Err(StoreError::IOFailure);
        }
        if let Some(q) = country_short {
            if !check_qualifier(q) {
                return Err(StoreError::IOFailure);
            }
        }
        let key = make_key(name, country_short);
        self.entries.push((key, image));
        proof {
            assert(self.entries@.drop_last() =~= old(self).entries@);
        }
        Ok(())
    }

    /// Reads the variant of `name` selected by the optional qualifier,
    /// exactly as `read_spec` resolves it: no default variant means
    /// `NotFound`, a missing qualified variant falls back to the default
    /// one, and an invalid name or qualifier is an `IOFailure`.
    pub fn read_image(&self, name: &str, country_short: Option<String>) -> (r: Result<
        Vec<u8>,
        StoreError,
    >)
        ensures
            match r {
                Ok(v) => read_spec(self@, name@, country_short.deep_view()) == Ok::<
                    Seq<u8>,
                    StoreError,
                >(v@),
                Err(e) => read_spec(self@, name@, country_short.deep_view()) == Err::<
                    Seq<u8>,
                    StoreError,
                >(e),
            },
    {
        if !check_name(name) {
            return Err(StoreError::IOFailure);
        }
        if let Some(q) = &country_short {
            if !check_qualifier(q.as_str()) {
                return Err(StoreError::IOFailure);
            }
        }
        let default_key = make_key(name, None);
        match self.lookup_exact(&default_key) {
            None => Err(StoreError::NotFound),
            Some(default_bytes) => match &country_short {
                None => Ok(default_bytes),
                Some(q) => {
                    let qualified_key = make_key(name, Some(q.as_str()));
                    match self.lookup_exact(&qualified_key) {
                        Some(v) => Ok(v),
                        None => Ok(default_bytes),
                    }
                },
            },
        }
    }
}

/// A composed key is itself a safe name: storing a variant can never write
/// outside the store's flat namespace.
pub proof fn lemma_key_is_safe(name: Seq<char>, q: Option<Seq<char>>)
    requires
        valid_request(name, q),
    ensures
        valid_name(variant_key(name, q)),
{
    match q {
        None => {},
        Some(qs) => {
            let k = variant_key(name, q);
            assert forall|i: int| 0 <= i < k.len() implies !is_path_sep(#[trigger] k[i]) by {
                if i < qs.len() {
                    assert(k[i] == qs[i]);
                } else if i == qs.len() {
                    assert(k[i] == '-');
                } else {
                    assert(k[i] == name[i - qs.len() - 1]);
                }
            }
            assert(k.len() >= 3);
        },
    }
}

/// Round trip: after storing bytes at `(name, q)`, reading `(name, q)`
/// returns exactly those bytes — provided the resource family exists, that
/// is, `q` is absent (the write itself publishes the default variant) or a
/// default variant is already present.
pub proof fn lemma_store_read_round_trip(
    m: Map<Seq<char>, Seq<u8>>,
    name: Seq<char>,
    q: Option<Seq<char>>,
    bytes: Seq<u8>,
)
    requires
        valid_request(name, q),
        q is Some ==> m.dom().contains(name),
    ensures
        read_spec(m.insert(variant_key(name, q), bytes), name, q) == Ok::<Seq<u8>, StoreError>(
            bytes,
        ),
{
    match q {
        None => {},
        Some(qs) => {
            assert(variant_key(name, q).len() == qs.len() + 1 + name.len());
        },
    }
}

/// Fallback: once the default variant holds `bytes` and no qualified
/// variant was ever written for `(name, q)`, a qualified read returns the
/// default bytes.
pub proof fn lemma_fallback(
    m: Map<Seq<char>, Seq<u8>>,
    name: Seq<char>,
    qs: Seq<char>,
    bytes: Seq<u8>,
)
    requires
        valid_name(name),
        valid_qualifier(qs),
        !m.dom().contains(variant_key(name, Some(qs))),
    ensures
        read_spec(m.insert(name, bytes), name, Some(qs)) == Ok::<Seq<u8>, StoreError>(bytes),
{
    assert(variant_key(name, Some(qs)).len() == qs.len() + 1 + name.len());
}

/// Existence gate: while no default variant exists for `name`, every read
/// of the family answers `NotFound`, whatever qualified variants exist.
pub proof fn lemma_existence_gate(m: Map<Seq<char>, Seq<u8>>, name: Seq<char>, q: Option<Seq<char>>)
    requires
        valid_request(name, q),
        !m.dom().contains(name),
    ensures
        read_spec(m, name, q) == Err::<Seq<u8>, StoreError>(StoreError::NotFound),
{
}

/// Idempotence: repeating an identical store leaves the store's contents
/// unchanged.
pub proof fn lemma_store_idempotent(
    m: Map<Seq<char>, Seq<u8>>,
    name: Seq<char>,
    q: Option<Seq<char>>,
    bytes: Seq<u8>,
)
    ensures
        m.insert(variant_key(name, q), bytes).insert(variant_key(name, q), bytes) == m.insert(
            variant_key(name, q),
            bytes,
        ),
{
    let k = variant_key(name, q);
    assert(m.insert(k, bytes).insert(k, bytes) =~= m.insert(k, bytes));
}

/// Overwrite: a later store to the same address fully replaces the earlier
/// bytes; a subsequent read returns the new bytes, never a mix.
pub proof fn lemma_store_overwrite(
    m: Map<Seq<char>, Seq<u8>>,
    name: Seq<char>,
    q: Option<Seq<char>>,
    bytes1: Seq<u8>,
    bytes2: Seq<u8>,
)
    requires
        valid_request(name, q),
        q is Some ==> m.dom().contains(name),
    ensures
        read_spec(
            m.insert(variant_key(name, q), bytes1).insert(variant_key(name, q), bytes2),
            name,
            q,
        ) == Ok::<Seq<u8>, StoreError>(bytes2),
{
    lemma_store_read_round_trip(m.insert(variant_key(name, q), bytes1), name, q, bytes2);
}

/// Existence gate, for a directly written variant: storing a qualified
/// variant while no default variant exists does not make the family
/// readable — the orphan variant is never served.
pub proof fn lemma_orphan_variant_not_served(
    m: Map<Seq<char>, Seq<u8>>,
    name: Seq<char>,
    qs: Seq<char>,
    bytes: Seq<u8>,
)
    requires
        valid_name(name),
        valid_qualifier(qs),
        !m.dom().contains(name),
    ensures
        read_spec(m.insert(variant_key(name, Some(qs)), bytes), name, Some(qs)) == Err::<
            Seq<u8>,
            StoreError,
        >(StoreError::NotFound),
{
    assert(variant_key(name, Some(qs)).len() == qs.len() + 1 + name.len());
}

/// Reads are framed by their address: a store to any other address leaves
/// what a read of `(name, q)` returns unchanged.
pub proof fn lemma_read_frame(
    m: Map<Seq<char>, Seq<u8>>,
    name: Seq<char>,
    q: Option<Seq<char>>,
    other: Seq<char>,
    bytes: Seq<u8>,
)
    requires
        other != name,
        other != variant_key(name, q),
    ensures
        read_spec(m.insert(other, bytes), name, q) == read_spec(m, name, q),
{
}

/// Independence: a store touches exactly its own address; every other key
/// keeps its contents, and in particular a qualified write never touches
/// the default variant.
pub proof fn lemma_store_independent(
    m: Map<Seq<char>, Seq<u8>>,
    name: Seq<char>,
    q: Option<Seq<char>>,
    bytes: Seq<u8>,
    other: Seq<char>,
)
    requires
        other != variant_key(name, q),
    ensures
        m.insert(variant_key(name, q), bytes).dom().contains(other) == m.dom().contains(other),
        m.dom().contains(other) ==> m.insert(variant_key(name, q), bytes)[other] == m[other],
{
}

} // verus!
