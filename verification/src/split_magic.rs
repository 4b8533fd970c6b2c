//! Pairing of sorceries with incantations, used to redirect a cast to a spell of the other
//! school when the weapon in the casting hand cannot cast the selected one.
use vstd::prelude::*;
use crate::magic::{Magic, MagicType};

verus! {

/// The school of each spell, in order.
pub open spec fn schools(magics: Seq<Magic>) -> Seq<MagicType> {
    magics.map_values(|m: Magic| m.magic_type)
}

/// The indices, in increasing order, of the spells of `school`.
pub open spec fn positions(types: Seq<MagicType>, school: MagicType) -> Seq<usize>
    decreases types.len(),
{
    if types.len() == 0 {
        Seq::empty()
    } else {
        let p = positions(types.drop_last(), school);
        if types.last() == school {
            p.push((types.len() - 1) as usize)
        } else {
            p
        }
    }
}

/// Whether a school is one of the two that spells are cast from.
pub open spec fn is_spell_school(t: MagicType) -> bool {
    t == MagicType::Sorcery || t == MagicType::Incantation
}

/// The indices, in increasing order, of the sorceries and incantations.
pub open spec fn spell_positions(types: Seq<MagicType>) -> Seq<usize>
    decreases types.len(),
{
    if types.len() == 0 {
        Seq::empty()
    } else {
        let p = spell_positions(types.drop_last());
        if is_spell_school(types.last()) {
            p.push((types.len() - 1) as usize)
        } else {
            p
        }
    }
}

/// How many spells of `school` come before index `i`.
pub open spec fn rank(types: Seq<MagicType>, i: int, school: MagicType) -> nat {
    positions(types.take(i), school).len()
}

/// The school a spell is redirected to.
pub open spec fn other_school(t: MagicType) -> MagicType {
    if t == MagicType::Sorcery {
        MagicType::Incantation
    } else {
        MagicType::Sorcery
    }
}

/// The spell that spell `i` is redirected to: the k-th spell of `i`'s school goes to the k-th
/// spell of the other school, counting round again when the other school has fewer.
pub open spec fn partner(types: Seq<MagicType>, i: int) -> usize {
    let own = if types[i] == MagicType::Sorcery {
        MagicType::Sorcery
    } else {
        MagicType::Incantation
    };
    let others = positions(types, other_school(own));
    others[(rank(types, i, own) % others.len()) as int]
}

/// The redirection table: for each sorcery or incantation, in order of index, the spell it is
/// redirected to; empty when one of the two schools has no spell.
pub open spec fn split_magic_spec(types: Seq<MagicType>) -> Seq<usize> {
    if positions(types, MagicType::Sorcery).len() == 0 || positions(
        types,
        MagicType::Incantation,
    ).len() == 0 {
        Seq::empty()
    } else {
        spell_positions(types).map_values(|i: usize| partner(types, i as int))
    }
}

/// Every index listed for a school is in range and holds a spell of that school.
pub proof fn lemma_positions(types: Seq<MagicType>, school: MagicType)
    requires
        types.len() <= usize::MAX,
    ensures
        forall|k: int|
            0 <= k < positions(types, school).len() ==> #[trigger] positions(types, school)[k]
                < types.len() && types[positions(types, school)[k] as int] == school,
        positions(types, school).len() <= types.len(),
    decreases types.len(),
{
    if types.len() > 0 {
        let d = types.drop_last();
        lemma_positions(d, school);
        let p = positions(d, school);
        let q = positions(types, school);
        assert(q == if types.last() == school {
            p.push((types.len() - 1) as usize)
        } else {
            p
        });
        assert forall|k: int| 0 <= k < q.len() implies #[trigger] q[k] < types.len() && types[q[k]
            as int] == school by {
            if k < p.len() {
                assert(q[k] == p[k]);
                assert(p[k] < d.len());
                assert(d[p[k] as int] == school);
            } else {
                assert(types.last() == school);
            }
        }
    }
}

/// Every index listed as a spell is in range and holds a sorcery or an incantation.
pub proof fn lemma_spell_positions(types: Seq<MagicType>)
    requires
        types.len() <= usize::MAX,
    ensures
        forall|k: int|
            0 <= k < spell_positions(types).len() ==> #[trigger] spell_positions(types)[k]
                < types.len() && is_spell_school(types[spell_positions(types)[k] as int]),
        spell_positions(types).len() <= types.len(),
    decreases types.len(),
{
    if types.len() > 0 {
        let d = types.drop_last();
        lemma_spell_positions(d);
        let p = spell_positions(d);
        let q = spell_positions(types);
        assert(q == if is_spell_school(types.last()) {
            p.push((types.len() - 1) as usize)
        } else {
            p
        });
        assert forall|k: int| 0 <= k < q.len() implies #[trigger] q[k] < types.len()
            && is_spell_school(types[q[k] as int]) by {
            if k < p.len() {
                assert(q[k] == p[k]);
                assert(p[k] < d.len());
                assert(is_spell_school(d[p[k] as int]));
            } else {
                assert(is_spell_school(types.last()));
            }
        }
    }
}

/// Redirection always lands on a spell of the other school: a sorcery is redirected to an
/// incantation and an incantation to a sorcery.
pub proof fn lemma_split_magic_crosses_schools(types: Seq<MagicType>)
    requires
        types.len() <= usize::MAX,
    ensures
        split_magic_spec(types).len() == 0 || split_magic_spec(types).len() == spell_positions(
            types,
        ).len(),
        forall|j: int|
            0 <= j < split_magic_spec(types).len() ==> {
                let from = types[spell_positions(types)[j] as int];
                let to = #[trigger] split_magic_spec(types)[j];
                &&& to < types.len()
                &&& types[to as int] == other_school(from)
                &&& from != types[to as int]
            },
{
    lemma_spell_positions(types);
    lemma_positions(types, MagicType::Sorcery);
    lemma_positions(types, MagicType::Incantation);
    if split_magic_spec(types).len() > 0 {
        assert forall|j: int| 0 <= j < split_magic_spec(types).len() implies {
            let from = types[spell_positions(types)[j] as int];
            let to = #[trigger] split_magic_spec(types)[j];
            &&& to < types.len()
            &&& types[to as int] == other_school(from)
            &&& from != types[to as int]
        } by {
            let i = spell_positions(types)[j] as int;
            let own = if types[i] == MagicType::Sorcery {
                MagicType::Sorcery
            } else {
                MagicType::Incantation
            };
            let others = positions(types, other_school(own));
            let k = (rank(types, i, own) % others.len()) as int;
            assert(0 <= k < others.len());
            assert(others[k] < types.len());
        }
    }
}

/// The spells of a school that come before its j-th spell are its first j spells.
proof fn lemma_positions_prefix(types: Seq<MagicType>, school: MagicType, j: int)
    requires
        types.len() <= usize::MAX,
        0 <= j < positions(types, school).len(),
    ensures
        positions(types.take(positions(types, school)[j] as int), school) == positions(
            types,
            school,
        ).take(j),
    decreases types.len(),
{
    let d = types.drop_last();
    let pd = positions(d, school);
    let p = positions(types, school);
    lemma_positions(d, school);
    if j < pd.len() {
        assert(p[j] == pd[j]);
        let x = pd[j] as int;
        assert(types.take(x) =~= d.take(x));
        lemma_positions_prefix(d, school, j);
        assert(p.take(j) =~= pd.take(j));
    } else {
        assert(types.last() == school);
        assert(p[j] as int == types.len() - 1);
        assert(types.take(types.len() - 1) =~= d);
        assert(p.take(j) =~= pd);
    }
}

/// When every entry is a sorcery or an incantation, the spells are all the entries, in order.
proof fn lemma_all_spells(types: Seq<MagicType>)
    requires
        types.len() <= usize::MAX,
        forall|i: int| 0 <= i < types.len() ==> is_spell_school(#[trigger] types[i]),
    ensures
        spell_positions(types).len() == types.len(),
        forall|i: int| 0 <= i < types.len() ==> #[trigger] spell_positions(types)[i] == i,
    decreases types.len(),
{
    if types.len() > 0 {
        let d = types.drop_last();
        assert forall|i: int| 0 <= i < d.len() implies is_spell_school(#[trigger] d[i]) by {
            assert(d[i] == types[i]);
        }
        lemma_all_spells(d);
        assert(is_spell_school(types[types.len() - 1]));
        assert forall|i: int| 0 <= i < types.len() implies #[trigger] spell_positions(types)[i] == i by {
            if i < d.len() {
                assert(spell_positions(types)[i] == spell_positions(d)[i]);
            }
        }
    }
}

/// With only sorceries and incantations equipped, the k-th sorcery is redirected to the k-th
/// incantation and the k-th incantation to the k-th sorcery, counting round again through the
/// school that has fewer; the table is empty when either school has no spell.
pub proof fn law_split_magic_pairs_in_turn(types: Seq<MagicType>)
    requires
        types.len() <= usize::MAX,
        forall|i: int| 0 <= i < types.len() ==> is_spell_school(#[trigger] types[i]),
    ensures
        ({
            let sorceries = positions(types, MagicType::Sorcery);
            let incantations = positions(types, MagicType::Incantation);
            let table = split_magic_spec(types);
            &&& sorceries.len() == 0 || incantations.len() == 0 ==> table.len() == 0
            &&& sorceries.len() > 0 && incantations.len() > 0 ==> {
                &&& table.len() == types.len()
                &&& forall|j: int|
                    0 <= j < sorceries.len() ==> table[#[trigger] sorceries[j] as int]
                        == incantations[j % (incantations.len() as int)]
                &&& forall|j: int|
                    0 <= j < incantations.len() ==> table[#[trigger] incantations[j] as int]
                        == sorceries[j % (sorceries.len() as int)]
            }
        }),
{
    let sorceries = positions(types, MagicType::Sorcery);
    let incantations = positions(types, MagicType::Incantation);
    if sorceries.len() > 0 && incantations.len() > 0 {
        lemma_all_spells(types);
        lemma_positions(types, MagicType::Sorcery);
        lemma_positions(types, MagicType::Incantation);
        let table = split_magic_spec(types);
        assert forall|j: int| 0 <= j < sorceries.len() implies table[#[trigger] sorceries[j] as int]
            == incantations[j % (incantations.len() as int)] by {
            let i = sorceries[j] as int;
            lemma_positions_prefix(types, MagicType::Sorcery, j);
            assert(spell_positions(types)[i] == i);
            assert(rank(types, i, MagicType::Sorcery) == j);
        }
        assert forall|j: int| 0 <= j < incantations.len() implies table[#[trigger] incantations[j] as int]
            == sorceries[j % (sorceries.len() as int)] by {
            let i = incantations[j] as int;
            lemma_positions_prefix(types, MagicType::Incantation, j);
            assert(spell_positions(types)[i] == i);
            assert(rank(types, i, MagicType::Incantation) == j);
        }
    }
}

proof fn lemma_positions_step(types: Seq<MagicType>, i: int, school: MagicType)
    requires
        0 <= i < types.len(),
    ensures
        positions(types.take(i + 1), school) == if types[i] == school {
            positions(types.take(i), school).push(i as usize)
        } else {
            positions(types.take(i), school)
        },
        spell_positions(types.take(i + 1)) == if is_spell_school(types[i]) {
            spell_positions(types.take(i)).push(i as usize)
        } else {
            spell_positions(types.take(i))
        },
{
    assert(types.take(i + 1).drop_last() =~= types.take(i));
}

/// Builds the redirection table from the cached spells.
pub fn init_split_magic(magics: &[Magic]) -> (r: Vec<usize>)
    ensures
        r@ == split_magic_spec(schools(magics@)),
{
    let ghost types = schools(magics@);
    let n = magics.len();
    let mut sorceries: Vec<usize> = Vec::new();
    let mut incantations: Vec<usize> = Vec::new();
    let mut i: usize = 0;
    while i < n
        invariant
            n == magics@.len(),
            types == schools(magics@),
            i <= n,
            sorceries@ == positions(types.take(i as int), MagicType::Sorcery),
            incantations@ == positions(types.take(i as int), MagicType::Incantation),
        decreases n - i,
    {
        proof {
            lemma_positions_step(types, i as int, MagicType::Sorcery);
            lemma_positions_step(types, i as int, MagicType::Incantation);
        }
        let t = magics[i].magic_type;
        if t == MagicType::Sorcery {
            sorceries.push(i);
        }
        if t == MagicType::Incantation {
            incantations.push(i);
        }
        i = i + 1;
    }
    assert(types.take(n as int) =~= types);
    if sorceries.len() == 0 || incantations.len() == 0 {
        return Vec::new();
    }
    proof {
        lemma_positions(types, MagicType::Sorcery);
        lemma_positions(types, MagicType::Incantation);
    }
    let ghost f = |x: usize| partner(types, x as int);
    let mut out: Vec<usize> = Vec::new();
    let mut sorcery_rank: usize = 0;
    let mut incantation_rank: usize = 0;
    let mut i: usize = 0;
    while i < n
        invariant
            n == magics@.len(),
            types == schools(magics@),
            i <= n,
            sorceries@ == positions(types, MagicType::Sorcery),
            incantations@ == positions(types, MagicType::Incantation),
            sorceries@.len() > 0,
            incantations@.len() > 0,
            sorcery_rank == positions(types.take(i as int), MagicType::Sorcery).len(),
            incantation_rank == positions(types.take(i as int), MagicType::Incantation).len(),
            out@ == spell_positions(types.take(i as int)).map_values(f),
            f == (|x: usize| partner(types, x as int)),
            positions(types, MagicType::Sorcery).len() <= n,
            positions(types, MagicType::Incantation).len() <= n,
        decreases n - i,
    {
        proof {
            lemma_positions_step(types, i as int, MagicType::Sorcery);
            lemma_positions_step(types, i as int, MagicType::Incantation);
            lemma_positions(types.take(i as int), MagicType::Sorcery);
            lemma_positions(types.take(i as int), MagicType::Incantation);
        }
        let t = magics[i].magic_type;
        let ghost before = out@;
        if t == MagicType::Sorcery {
            let target = incantations[sorcery_rank % incantations.len()];
            out.push(target);
            sorcery_rank = sorcery_rank + 1;
            proof {
                assert(spell_positions(types.take(i + 1)).map_values(f) =~= before.push(
                    f(i as usize),
                ));
            }
        } else if t == MagicType::Incantation {
            let target = sorceries[incantation_rank % sorceries.len()];
            out.push(target);
            incantation_rank = incantation_rank + 1;
            proof {
                assert(spell_positions(types.take(i + 1)).map_values(f) =~= before.push(
                    f(i as usize),
                ));
            }
        }
        i = i + 1;
    }
    assert(types.take(n as int) =~= types);
    out
}

} // verus!
