//! Union type definitions for generated documents: drawing one from
//! unstructured data, and turning one into a syntax tree definition.
//!
//! A union type definition names its members once each, in the order they
//! were first drawn; an extension extends a union defined before.
use vstd::prelude::*;
use crate::ast::{Definition, Directive, UnionTypeDefinition, UnionTypeExtension};
use arbitrary::Error as DrawError;
use arbitrary::Unstructured;
use indexmap::{IndexMap, IndexSet};

verus! {

#[verifier::external_type_specification]
#[verifier::external_body]
pub struct ExUnstructured<'a>(arbitrary::Unstructured<'a>);

#[verifier::external_type_specification]
#[verifier::external_body]
pub struct ExDrawError(DrawError);

#[verifier::external_type_specification]
#[verifier::external_body]
#[verifier::reject_recursive_types(T)]
#[verifier::reject_recursive_types(S)]
pub struct ExIndexSet<T, S>(indexmap::IndexSet<T, S>);

#[verifier::external_type_specification]
#[verifier::external_body]
#[verifier::reject_recursive_types(K)]
#[verifier::reject_recursive_types(V)]
#[verifier::reject_recursive_types(S)]
pub struct ExIndexMap<K, V, S>(indexmap::IndexMap<K, V, S>);

/// The items of an index set, in insertion order.
pub uninterp spec fn set_items(s: indexmap::IndexSet<String>) -> Seq<Seq<char>>;

/// The entries of an index map, in insertion order.
pub uninterp spec fn map_entries(m: indexmap::IndexMap<String, Directive>) -> Seq<(Seq<char>, Directive)>;

/// `IndexSet::new`: a set with no item.
#[verifier::external_body]
fn new_index_set() -> (s: IndexSet<String>)
    ensures
        set_items(s) == Seq::<Seq<char>>::empty(),
{
    IndexSet::new()
}

/// `IndexSet::insert`: when no equal item is in the set, `x` is added last
/// and the result is `true`; otherwise the set is unchanged and the result is
/// `false`.
#[verifier::external_body]
fn index_set_insert(s: &mut IndexSet<String>, x: String) -> (r: bool)
    ensures
        r == !set_items(*old(s)).contains(x@),
        set_items(*final(s)) == if r {
            set_items(*old(s)).push(x@)
        } else {
            set_items(*old(s))
        },
{
    s.insert(x)
}

/// `IndexSet::into_iter`, collected: the items in order.
#[verifier::external_body]
fn index_set_into_vec(s: IndexSet<String>) -> (v: Vec<String>)
    ensures
        v@.map_values(|x: String| x@) == set_items(s),
{
    s.into_iter().collect()
}

/// `IndexMap::into_values`, collected: the values in order.
#[verifier::external_body]
fn index_map_into_values(m: IndexMap<String, Directive>) -> (v: Vec<Directive>)
    ensures
        v@ == map_entries(m).map_values(|e: (Seq<char>, Directive)| e.1),
{
    m.into_values().collect()
}

/// The bytes an unstructured source has left to draw from.
pub uninterp spec fn unstructured_bytes(u: arbitrary::Unstructured<'_>) -> Seq<u8>;

/// A boolean drawn from `bytes`: the low bit of the first byte, which is
/// used up, or `false` when there is none; and the bytes left.
pub open spec fn bool_draw(bytes: Seq<u8>) -> (bool, Seq<u8>) {
    if bytes.len() == 0 {
        (false, bytes)
    } else {
        (bytes[0] % 2 == 1, bytes.skip(1))
    }
}

/// The number of bytes it takes to write `delta` in base 256.
pub open spec fn width_bytes(delta: nat) -> nat
    decreases delta,
{
    if delta == 0 {
        0
    } else {
        1 + width_bytes(delta / 256)
    }
}

/// The number that the bytes write in base 256, the first the highest.
pub open spec fn big_endian(bs: Seq<u8>) -> nat
    decreases bs.len(),
{
    if bs.len() == 0 {
        0
    } else {
        big_endian(bs.drop_last()) * 256 + bs.last() as nat
    }
}

/// A number in `lo..=hi` drawn from `bytes`, and the bytes left: the
/// leading bytes, as many as `hi - lo` takes in base 256 (fewer when fewer
/// are left), read as a number, taken modulo the width of the range and
/// added to `lo`; nothing is read when the range holds one number.
pub open spec fn range_draw(bytes: Seq<u8>, lo: nat, hi: nat) -> (nat, Seq<u8>) {
    if lo >= hi {
        (lo, bytes)
    } else {
        let k = if width_bytes((hi - lo) as nat) <= bytes.len() {
            width_bytes((hi - lo) as nat)
        } else {
            bytes.len()
        };
        ((lo + big_endian(bytes.take(k as int)) % ((hi - lo) as nat + 1)) as nat, bytes.skip(k as int))
    }
}

/// `<bool as Arbitrary>::arbitrary`: the low bit of the next byte, or
/// `false` when no byte is left; it never fails.
#[verifier::external_body]
fn draw_bool(u: &mut Unstructured<'_>) -> (r: Result<bool, DrawError>)
    ensures
        r is Ok,
        r->Ok_0 == bool_draw(unstructured_bytes(*old(u))).0,
        unstructured_bytes(*final(u)) == bool_draw(unstructured_bytes(*old(u))).1,
{
    u.arbitrary::<bool>()
}

/// `Unstructured::int_in_range` over `lo..=hi`: the number `range_draw`
/// gives, in the range; it never fails, and panics on an empty range.
#[verifier::external_body]
fn draw_in_range(u: &mut Unstructured<'_>, lo: usize, hi: usize) -> (r: Result<usize, DrawError>)
    requires
        lo <= hi,
    ensures
        r is Ok,
        lo <= r->Ok_0 <= hi,
        r->Ok_0 == range_draw(unstructured_bytes(*old(u)), lo as nat, hi as nat).0,
        unstructured_bytes(*final(u)) == range_draw(unstructured_bytes(*old(u)), lo as nat, hi as nat).1,
{
    u.int_in_range(lo..=hi)
}

/// `Unstructured::choose_index`: an error, reading nothing, when `len` is
/// 0; otherwise the index in `0..=len - 1` that `range_draw` gives.
#[verifier::external_body]
fn draw_index(u: &mut Unstructured<'_>, len: usize) -> (r: Result<usize, DrawError>)
    ensures
        len == 0 ==> r is Err && unstructured_bytes(*final(u)) == unstructured_bytes(*old(u)),
        len > 0 ==> {
            &&& r is Ok
            &&& r->Ok_0 < len
            &&& r->Ok_0 == range_draw(unstructured_bytes(*old(u)), 0, (len - 1) as nat).0
            &&& unstructured_bytes(*final(u)) == range_draw(unstructured_bytes(*old(u)), 0, (len - 1) as nat).1
        },
{
    u.choose_index(len)
}

/// A union type definition or extension of a generated document.
#[derive(Debug)]
pub struct UnionTypeDef {
    pub name: String,
    pub description: Option<String>,
    pub members: IndexSet<String>,
    pub directives: IndexMap<String, Directive>,
    pub extend: bool,
}

/// No text occurs twice.
pub open spec fn no_duplicates(s: Seq<Seq<char>>) -> bool {
    forall|i: int, j: int| 0 <= i < j < s.len() ==> s[i] != s[j]
}

/// The first occurrence of each text, in order.
pub open spec fn dedup_first(s: Seq<Seq<char>>) -> Seq<Seq<char>>
    decreases s.len(),
{
    if s.len() == 0 {
        Seq::empty()
    } else if dedup_first(s.drop_last()).contains(s.last()) {
        dedup_first(s.drop_last())
    } else {
        dedup_first(s.drop_last()).push(s.last())
    }
}

/// The first occurrences hold no text twice, no more texts than `s`, at
/// least one when `s` has one, and only texts of `s`.
pub proof fn lemma_dedup_first(s: Seq<Seq<char>>)
    ensures
        no_duplicates(dedup_first(s)),
        dedup_first(s).len() <= s.len(),
        s.len() > 0 ==> dedup_first(s).len() > 0,
        forall|x: Seq<char>| dedup_first(s).contains(x) ==> s.contains(x),
    decreases s.len(),
{
    if s.len() > 0 {
        let p = s.drop_last();
        lemma_dedup_first(p);
        assert forall|x: Seq<char>| dedup_first(s).contains(x) implies s.contains(x) by {
            if dedup_first(p).contains(x) {
                assert(p.contains(x));
                let k = choose|k: int| 0 <= k < p.len() && p[k] == x;
                assert(s[k] == x);
            } else {
                assert(x == s.last());
                assert(s[s.len() - 1] == x);
            }
        }
        if !dedup_first(p).contains(s.last()) {
            let d = dedup_first(s);
            assert forall|i: int, j: int| 0 <= i < j < d.len() implies d[i] != d[j] by {
                if j == d.len() - 1 {
                    assert(d[i] == dedup_first(p)[i]);
                    assert(dedup_first(p).contains(d[i]));
                } else {
                    assert(d[i] == dedup_first(p)[i] && d[j] == dedup_first(p)[j]);
                }
            }
        }
    }
}

/// The union type definition whose members are the first occurrences of
/// `drawn`: an extension of `existing[pick]` when `extend` and a pick is
/// given, else a definition or extension named `fresh`.
pub fn build_union(
    existing: &Vec<UnionTypeDef>,
    extend: bool,
    pick: Option<usize>,
    fresh: String,
    description: Option<String>,
    drawn: Vec<String>,
    directives: IndexMap<String, Directive>,
) -> (r: UnionTypeDef)
    requires
        pick matches Some(i) ==> i < existing.len(),
    ensures
        set_items(r.members) == dedup_first(drawn@.map_values(|x: String| x@)),
        r.extend == extend,
        r.name@ == (if extend && pick is Some {
            existing@[pick->0 as int].name@
        } else {
            fresh@
        }),
        r.description == description,
        r.directives == directives,
{
    let name = match pick {
        Some(i) => if extend {
            existing[i].name.clone()
        } else {
            fresh
        },
        None => fresh,
    };
    let members = member_set(drawn);
    UnionTypeDef { name, description, members, directives, extend }
}

/// The set of the names, each at its first occurrence, in order.
fn member_set(names: Vec<String>) -> (s: IndexSet<String>)
    ensures
        set_items(s) == dedup_first(names@.map_values(|x: String| x@)),
{
    let ghost texts = names@.map_values(|x: String| x@);
    let mut members = new_index_set();
    let mut k: usize = 0;
    while k < names.len()
        invariant
            k <= names.len(),
            texts == names@.map_values(|x: String| x@),
            set_items(members) == dedup_first(texts.take(k as int)),
        decreases names.len() - k,
    {
        assert(texts.take(k + 1).drop_last() =~= texts.take(k as int));
        assert(texts.take(k + 1).last() == names@[k as int]@);
        let _ = index_set_insert(&mut members, names[k].clone());
        k += 1;
    }
    assert(texts.take(names.len() as int) =~= texts);
    members
}

/// The union type definition (or, when `extend`, extension) read from a
/// parsed one: its name, its description (none for an extension), its
/// directives, and its member types, each kept once in order.
pub fn union_type_def_from_parts(
    name: String,
    description: Option<String>,
    directives: IndexMap<String, Directive>,
    members: Vec<String>,
    extend: bool,
) -> (r: UnionTypeDef)
    ensures
        r.name == name,
        r.description == (if extend {
            None
        } else {
            description
        }),
        r.directives == directives,
        r.extend == extend,
        set_items(r.members) == dedup_first(members@.map_values(|m: String| m@)),
{
    let description = if extend {
        None
    } else {
        description
    };
    UnionTypeDef { name, description, members: member_set(members), directives, extend }
}

/// What a generated union type definition keeps: members drawn from
/// `candidates`, each once, between one and ten of them; an extension
/// extends a union of `defs` that is no extension, and a definition has the
/// name `fresh`; the description is `description` or none; the directives
/// are `directives`.
pub open spec fn generated_union(
    d: UnionTypeDef,
    defs: Seq<UnionTypeDef>,
    candidates: Seq<Seq<char>>,
    fresh: Seq<char>,
    description: Option<String>,
    directives: IndexMap<String, Directive>,
) -> bool {
    &&& 1 <= set_items(d.members).len() <= 10
    &&& no_duplicates(set_items(d.members))
    &&& forall|x: Seq<char>| set_items(d.members).contains(x) ==> candidates.contains(x)
    &&& d.extend ==> exists|j: int| 0 <= j < defs.len() && !defs[j].extend && defs[j].name@ == d.name@
    &&& !d.extend ==> d.name@ == fresh
    &&& (d.description is None || d.description == description)
    &&& d.directives == directives
}

/// The names a generated union may take as members: the object types, then
/// the unions defined so far.
pub open spec fn member_candidates(object_types: Seq<String>, defs: Seq<UnionTypeDef>) -> Seq<Seq<char>> {
    object_types.map_values(|n: String| n@) + defs.map_values(|d: UnionTypeDef| d.name@)
}

/// The indices of the unions of `defs` that are no extension, in order.
pub open spec fn extendable(defs: Seq<UnionTypeDef>) -> Seq<int>
    decreases defs.len(),
{
    if defs.len() == 0 {
        Seq::empty()
    } else if defs.last().extend {
        extendable(defs.drop_last())
    } else {
        extendable(defs.drop_last()).push(defs.len() - 1)
    }
}

/// `n` members drawn in turn from `bytes`, each the candidate at the index
/// drawn for it, and the bytes left; `None` when a member is to be drawn
/// and there is no candidate.
pub open spec fn draw_members(cands: Seq<Seq<char>>, bytes: Seq<u8>, n: nat) -> Option<(Seq<Seq<char>>, Seq<u8>)>
    decreases n,
{
    if n == 0 {
        Some((Seq::empty(), bytes))
    } else {
        match draw_members(cands, bytes, (n - 1) as nat) {
            Some(m) => if cands.len() == 0 {
                None
            } else {
                let i = range_draw(m.1, 0, (cands.len() - 1) as nat);
                Some((m.0.push(cands[i.0 as int]), i.1))
            },
            None => None,
        }
    }
}

/// What is drawn for a union type definition.
pub struct UnionDraw {
    pub name: Seq<char>,
    pub extend: bool,
    pub keep_description: bool,
    pub members: Seq<Seq<char>>,
    pub rest: Seq<u8>,
}

/// The union type definition drawn from `bytes`, given the unions `defs`
/// defined so far, the member candidates and the name of a new union, and
/// the bytes left after it; `None` when an extension is drawn and every
/// union is an extension, or members are drawn and there is no candidate.
///
/// In turn: whether to extend (only when unions are defined), which union
/// that is no extension to extend, whether to keep the description, how many
/// members (2 to 10), and each member.
pub open spec fn union_draw(
    defs: Seq<UnionTypeDef>,
    cands: Seq<Seq<char>>,
    bytes: Seq<u8>,
    fresh: Seq<char>,
) -> Option<UnionDraw> {
    let first = if defs.len() > 0 {
        bool_draw(bytes)
    } else {
        (false, bytes)
    };
    let avail = extendable(defs);
    if first.0 && avail.len() == 0 {
        None
    } else {
        let picked = if first.0 {
            range_draw(first.1, 0, (avail.len() - 1) as nat)
        } else {
            (0nat, first.1)
        };
        let name = if first.0 {
            defs[avail[picked.0 as int]].name@
        } else {
            fresh
        };
        let keep = bool_draw(picked.1);
        let count = range_draw(keep.1, 2, 10);
        match draw_members(cands, count.1, count.0) {
            Some(m) => Some(
                UnionDraw { name, extend: first.0, keep_description: keep.0, members: dedup_first(m.0), rest: m.1 },
            ),
            None => None,
        }
    }
}

proof fn lemma_extendable(defs: Seq<UnionTypeDef>)
    ensures
        forall|k: int|
            0 <= k < extendable(defs).len() ==> 0 <= #[trigger] extendable(defs)[k] < defs.len()
                && !defs[extendable(defs)[k]].extend,
        (exists|j: int| 0 <= j < defs.len() && !defs[j].extend) ==> extendable(defs).len() > 0,
    decreases defs.len(),
{
    if defs.len() > 0 {
        lemma_extendable(defs.drop_last());
        if exists|j: int| 0 <= j < defs.len() && !defs[j].extend {
            let j = choose|j: int| 0 <= j < defs.len() && !defs[j].extend;
            if j < defs.len() - 1 {
                assert(defs.drop_last()[j] == defs[j]);
            }
        }
    }
}

proof fn lemma_draw_members(cands: Seq<Seq<char>>, bytes: Seq<u8>, n: nat)
    ensures
        cands.len() > 0 ==> draw_members(cands, bytes, n) is Some,
        cands.len() == 0 && n > 0 ==> draw_members(cands, bytes, n) is None,
    decreases n,
{
    if n > 0 {
        lemma_draw_members(cands, bytes, (n - 1) as nat);
    }
}

/// The same unions, candidates, new name and bytes give the same union
/// type definition and leave the same bytes: drawing is deterministic.
pub proof fn lemma_union_draw_deterministic(
    defs: Seq<UnionTypeDef>,
    other_defs: Seq<UnionTypeDef>,
    cands: Seq<Seq<char>>,
    bytes: Seq<u8>,
    other_bytes: Seq<u8>,
    fresh: Seq<char>,
)
    requires
        defs == other_defs,
        bytes == other_bytes,
    ensures
        union_draw(defs, cands, bytes, fresh) == union_draw(other_defs, cands, other_bytes, fresh),
{
}

/// Draws documents from unstructured data, keeping the union type
/// definitions drawn so far.
pub struct DocumentBuilder<'a> {
    pub u: Unstructured<'a>,
    pub union_type_defs: Vec<UnionTypeDef>,
}

impl<'a> DocumentBuilder<'a> {
    /// Draws a union type definition, as `union_draw` says. When unions are
    /// defined, it may draw an extension of one that is no extension itself;
    /// otherwise it is named `fresh_name`. It keeps `description` when a
    /// drawn flag says so, and has `directives`. Its members are two to ten
    /// draws among `object_types` and the unions defined so far, each kept
    /// once. It fails only when an extension is drawn and every union is an
    /// extension, or when there is no candidate member.
    pub fn union_type_definition(
        &mut self,
        fresh_name: String,
        description: Option<String>,
        directives: IndexMap<String, Directive>,
        object_types: &Vec<String>,
    ) -> (r: Result<UnionTypeDef, DrawError>)
        ensures
            final(self).union_type_defs@ == old(self).union_type_defs@,
            match union_draw(
                old(self).union_type_defs@,
                member_candidates(object_types@, old(self).union_type_defs@),
                unstructured_bytes(old(self).u),
                fresh_name@,
            ) {
                Some(o) => {
                    &&& r is Ok
                    &&& r->Ok_0.name@ == o.name
                    &&& r->Ok_0.extend == o.extend
                    &&& r->Ok_0.description == (if o.keep_description {
                        description
                    } else {
                        None
                    })
                    &&& set_items(r->Ok_0.members) == o.members
                    &&& r->Ok_0.directives == directives
                    &&& unstructured_bytes(final(self).u) == o.rest
                },
                None => r is Err,
            },
            member_candidates(object_types@, old(self).union_type_defs@).len() > 0 && (old(
                self,
            ).union_type_defs@.len() == 0 || exists|j: int|
                0 <= j < old(self).union_type_defs@.len() && !old(self).union_type_defs@[j].extend) ==> r is Ok,
            r matches Ok(d) ==> generated_union(
                d,
                old(self).union_type_defs@,
                member_candidates(object_types@, old(self).union_type_defs@),
                fresh_name@,
                description,
                directives,
            ),
    {
        let ghost defs = self.union_type_defs@;
        let ghost b0 = unstructured_bytes(self.u);
        let ghost cands = member_candidates(object_types@, defs);
        let ghost avail = extendable(defs);
        proof {
            lemma_extendable(defs);
        }
        let extend = self.union_type_defs.len() > 0 && match draw_bool(&mut self.u) {
            Ok(b) => b,
            Err(_) => false,
        };
        let ghost first = if defs.len() > 0 {
            bool_draw(b0)
        } else {
            (false, b0)
        };
        assert(extend == first.0 && unstructured_bytes(self.u) == first.1);
        let mut pick: Option<usize> = None;
        if extend {
            let ghost b1 = unstructured_bytes(self.u);
            let mut available: Vec<usize> = Vec::new();
            let mut j: usize = 0;
            while j < self.union_type_defs.len()
                invariant
                    j <= self.union_type_defs.len(),
                    self.union_type_defs@ == defs,
                    unstructured_bytes(self.u) == b1,
                    available@.map_values(|x: usize| x as int) == extendable(defs.take(j as int)),
                decreases self.union_type_defs.len() - j,
            {
                let ghost prev = available@;
                assert(defs.take(j + 1).drop_last() =~= defs.take(j as int));
                assert(defs.take(j + 1).last() == defs[j as int]);
                if !self.union_type_defs[j].extend {
                    available.push(j);
                    assert(available@.map_values(|x: usize| x as int) =~= prev.map_values(|x: usize| x as int).push(
                        j as int,
                    ));
                }
                j += 1;
            }
            assert(defs.take(defs.len() as int) =~= defs);
            assert(available@.map_values(|x: usize| x as int) == avail);
            let i = draw_index(&mut self.u, available.len())?;
            assert(avail[i as int] == available@[i as int] as int);
            pick = Some(available[i]);
        }
        let ghost picked = if first.0 {
            range_draw(first.1, 0, (avail.len() - 1) as nat)
        } else {
            (0nat, first.1)
        };
        assert(unstructured_bytes(self.u) == picked.1);
        assert(extend ==> pick is Some && pick->0 as int == avail[picked.0 as int]);
        let keep = match draw_bool(&mut self.u) {
            Ok(b) => b,
            Err(_) => false,
        };
        let ghost b3 = unstructured_bytes(self.u);
        let description = if keep {
            description
        } else {
            None
        };
        let mut candidates: Vec<String> = Vec::new();
        let mut j: usize = 0;
        while j < object_types.len()
            invariant
                j <= object_types.len(),
                self.union_type_defs@ == defs,
                unstructured_bytes(self.u) == b3,
                candidates@.map_values(|n: String| n@) == object_types@.take(j as int).map_values(|n: String| n@),
            decreases object_types.len() - j,
        {
            let ghost prev = candidates@;
            candidates.push(object_types[j].clone());
            assert(object_types@.take(j + 1) =~= object_types@.take(j as int).push(object_types@[j as int]));
            assert(candidates@.map_values(|n: String| n@) =~= prev.map_values(|n: String| n@).push(
                object_types@[j as int]@,
            ));
            assert(object_types@.take(j + 1).map_values(|n: String| n@) =~= object_types@.take(j as int).map_values(
                |n: String| n@,
            ).push(object_types@[j as int]@));
            j += 1;
        }
        assert(object_types@.take(object_types.len() as int) =~= object_types@);
        let mut j: usize = 0;
        while j < self.union_type_defs.len()
            invariant
                j <= self.union_type_defs.len(),
                self.union_type_defs@ == defs,
                unstructured_bytes(self.u) == b3,
                candidates@.map_values(|n: String| n@) == object_types@.map_values(|n: String| n@) + defs.take(
                    j as int,
                ).map_values(|d: UnionTypeDef| d.name@),
            decreases self.union_type_defs.len() - j,
        {
            let ghost prev = candidates@;
            candidates.push(self.union_type_defs[j].name.clone());
            assert(defs.take(j + 1) =~= defs.take(j as int).push(defs[j as int]));
            assert(candidates@.map_values(|n: String| n@) =~= prev.map_values(|n: String| n@).push(defs[j as int].name@));
            assert(defs.take(j + 1).map_values(|d: UnionTypeDef| d.name@) =~= defs.take(j as int).map_values(
                |d: UnionTypeDef| d.name@,
            ).push(defs[j as int].name@));
            assert(candidates@.map_values(|n: String| n@) =~= object_types@.map_values(|n: String| n@) + defs.take(
                j + 1,
            ).map_values(|d: UnionTypeDef| d.name@));
            j += 1;
        }
        assert(defs.take(defs.len() as int) =~= defs);
        assert(candidates@.map_values(|n: String| n@) == cands);
        let count = draw_in_range(&mut self.u, 2, 10);
        let count = match count {
            Ok(n) => n,
            Err(e) => {
                return Err(e);
            },
        };
        let ghost b4 = unstructured_bytes(self.u);
        proof {
            lemma_draw_members(cands, b4, count as nat);
        }
        let mut drawn: Vec<String> = Vec::new();
        let mut k: usize = 0;
        assert(drawn@.map_values(|x: String| x@) =~= Seq::<Seq<char>>::empty());
        while k < count
            invariant
                k <= count <= 10,
                self.union_type_defs@ == defs,
                old(self).union_type_defs@ == defs,
                cands == member_candidates(object_types@, defs),
                drawn@.len() == k,
                candidates@.map_values(|n: String| n@) == cands,
                forall|m: int| 0 <= m < k ==> cands.contains(#[trigger] drawn@[m]@),
                draw_members(cands, b4, k as nat) == Some((drawn@.map_values(|x: String| x@), unstructured_bytes(self.u))),
                cands.len() == 0 && count > 0 ==> draw_members(cands, b4, count as nat) is None,
                cands.len() > 0 ==> draw_members(cands, b4, count as nat) is Some,
                union_draw(defs, cands, b0, fresh_name@) == (match draw_members(cands, b4, count as nat) {
                    Some(m) => Some(
                        UnionDraw {
                            name: (if first.0 { defs[avail[picked.0 as int]].name@ } else { fresh_name@ }),
                            extend: first.0,
                            keep_description: keep,
                            members: dedup_first(m.0),
                            rest: m.1,
                        },
                    ),
                    None => None,
                }),
            decreases count - k,
        {
            let ghost before = drawn@;
            let i = draw_index(&mut self.u, candidates.len())?;
            assert(cands[i as int] == candidates@[i as int]@);
            drawn.push(candidates[i].clone());
            assert(drawn@.map_values(|x: String| x@) =~= before.map_values(|x: String| x@).push(cands[i as int]));
            k += 1;
        }
        let ghost texts = drawn@.map_values(|x: String| x@);
        let d = build_union(&self.union_type_defs, extend, pick, fresh_name, description, drawn, directives);
        proof {
            lemma_dedup_first(texts);
            assert forall|x: Seq<char>| set_items(d.members).contains(x) implies cands.contains(x) by {
                assert(dedup_first(texts).contains(x));
                assert(texts.contains(x));
                let m = choose|m: int| 0 <= m < texts.len() && texts[m] == x;
                assert(texts[m] == drawn@[m]@);
            }
            if d.extend {
                let j = pick->0 as int;
                assert(0 <= j < defs.len() && !defs[j].extend && defs[j].name@ == d.name@);
            }
        }
        Ok(d)
    }
}

impl UnionTypeDef {
    /// The syntax tree definition: an extension with the name, directives
    /// and members when `extend`, else a definition with the description
    /// too. Members and directives keep their order.
    pub fn into_definition(self) -> (r: Definition)
        ensures
            match r {
                Definition::UnionTypeExtension(e) => {
                    &&& self.extend
                    &&& e.name == self.name
                    &&& e.directives@ == map_entries(self.directives).map_values(|p: (Seq<char>, Directive)| p.1)
                    &&& e.members@.map_values(|x: String| x@) == set_items(self.members)
                },
                Definition::UnionTypeDefinition(e) => {
                    &&& !self.extend
                    &&& e.description == self.description
                    &&& e.name == self.name
                    &&& e.directives@ == map_entries(self.directives).map_values(|p: (Seq<char>, Directive)| p.1)
                    &&& e.members@.map_values(|x: String| x@) == set_items(self.members)
                },
                _ => false,
            },
    {
        let directives = index_map_into_values(self.directives);
        let members = index_set_into_vec(self.members);
        if self.extend {
            Definition::UnionTypeExtension(UnionTypeExtension { name: self.name, directives, members })
        } else {
            Definition::UnionTypeDefinition(
                UnionTypeDefinition { description: self.description, name: self.name, directives, members },
            )
        }
    }
}

} // verus!
