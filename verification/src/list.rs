//! The repeated-element half of a length-prefixed collection: the
//! concatenated wire images of a run of elements, and reading an exact
//! number of elements back, one after the other, from a shared position.
//!
//! The single count byte that precedes such a run is written and read by the
//! message that owns the collection.

use vstd::prelude::*;
use crate::error::{EntityName, ProtoError, ProtoErrorKind};
use crate::surface::{
    dec_def, dec_map, def_bytes, lemma_dec_def_of_bytes, lemma_dec_map_of_bytes, map_bytes,
    NowSurfaceDef, NowSurfaceMap,
};

verus! {

/// The concatenated wire images of a run of surface definitions.
pub open spec fn defs_bytes(s: Seq<NowSurfaceDef>) -> Seq<u8>
    decreases s.len(),
{
    if s.len() == 0 {
        Seq::empty()
    } else {
        def_bytes(s[0]) + defs_bytes(s.drop_first())
    }
}

/// The concatenated wire images of a run of surface mappings.
pub open spec fn maps_bytes(s: Seq<NowSurfaceMap>) -> Seq<u8>
    decreases s.len(),
{
    if s.len() == 0 {
        Seq::empty()
    } else {
        map_bytes(s[0]) + maps_bytes(s.drop_first())
    }
}

/// A run of definitions occupies sixteen bytes per element.
pub proof fn lemma_defs_bytes_len(s: Seq<NowSurfaceDef>)
    ensures
        defs_bytes(s).len() == 16 * s.len(),
    decreases s.len(),
{
    if s.len() > 0 {
        lemma_defs_bytes_len(s.drop_first());
    }
}

/// A run of mappings occupies sixteen bytes per element.
pub proof fn lemma_maps_bytes_len(s: Seq<NowSurfaceMap>)
    ensures
        maps_bytes(s).len() == 16 * s.len(),
    decreases s.len(),
{
    if s.len() > 0 {
        lemma_maps_bytes_len(s.drop_first());
    }
}

/// Appending one definition to a run appends its image to the run's image.
pub proof fn lemma_defs_bytes_push(s: Seq<NowSurfaceDef>, d: NowSurfaceDef)
    ensures
        defs_bytes(s.push(d)) == defs_bytes(s) + def_bytes(d),
    decreases s.len(),
{
    if s.len() == 0 {
        assert(s.push(d)[0] == d);
        assert(s.push(d).drop_first() =~= s);
        assert(defs_bytes(s.push(d)) == def_bytes(d) + defs_bytes(s));
        assert(defs_bytes(s) =~= Seq::<u8>::empty());
        assert(defs_bytes(s.push(d)) =~= defs_bytes(s) + def_bytes(d));
    } else {
        lemma_defs_bytes_push(s.drop_first(), d);
        assert(s.push(d)[0] == s[0]);
        assert(s.push(d).drop_first() =~= s.drop_first().push(d));
        assert(defs_bytes(s.push(d)) == def_bytes(s[0]) + defs_bytes(s.drop_first().push(d)));
        assert(defs_bytes(s) == def_bytes(s[0]) + defs_bytes(s.drop_first()));
        assert(defs_bytes(s.push(d)) =~= defs_bytes(s) + def_bytes(d));
    }
}

/// Appending one mapping to a run appends its image to the run's image.
pub proof fn lemma_maps_bytes_push(s: Seq<NowSurfaceMap>, m: NowSurfaceMap)
    ensures
        maps_bytes(s.push(m)) == maps_bytes(s) + map_bytes(m),
    decreases s.len(),
{
    if s.len() == 0 {
        assert(s.push(m)[0] == m);
        assert(s.push(m).drop_first() =~= s);
        assert(maps_bytes(s.push(m)) == map_bytes(m) + maps_bytes(s));
        assert(maps_bytes(s) =~= Seq::<u8>::empty());
        assert(maps_bytes(s.push(m)) =~= maps_bytes(s) + map_bytes(m));
    } else {
        lemma_maps_bytes_push(s.drop_first(), m);
        assert(s.push(m)[0] == s[0]);
        assert(s.push(m).drop_first() =~= s.drop_first().push(m));
        assert(maps_bytes(s.push(m)) == map_bytes(s[0]) + maps_bytes(s.drop_first().push(m)));
        assert(maps_bytes(s) == map_bytes(s[0]) + maps_bytes(s.drop_first()));
        assert(maps_bytes(s.push(m)) =~= maps_bytes(s) + map_bytes(m));
    }
}

/// What reading exactly `n` surface definitions at position `i` of `b`
/// yields: the elements in order and the position after the last, or nothing
/// as soon as one element fails.
pub open spec fn dec_defs(b: Seq<u8>, i: int, n: nat) -> Option<(Seq<NowSurfaceDef>, int)>
    decreases n,
{
    if n == 0 {
        Some((Seq::empty(), i))
    } else {
        match dec_def(b, i) {
            None => None,
            Some((d, j)) => match dec_defs(b, j, (n - 1) as nat) {
                None => None,
                Some((s, k)) => Some((seq![d] + s, k)),
            },
        }
    }
}

/// What reading exactly `n` surface mappings at position `i` of `b` yields.
pub open spec fn dec_maps(b: Seq<u8>, i: int, n: nat) -> Option<(Seq<NowSurfaceMap>, int)>
    decreases n,
{
    if n == 0 {
        Some((Seq::empty(), i))
    } else {
        match dec_map(b, i) {
            None => None,
            Some((m, j)) => match dec_maps(b, j, (n - 1) as nat) {
                None => None,
                Some((s, k)) => Some((seq![m] + s, k)),
            },
        }
    }
}

/// A read that still owes the elements of `acc` before its own result.
spec fn defs_prepended(acc: Seq<NowSurfaceDef>, rest: Option<(Seq<NowSurfaceDef>, int)>) -> Option<
    (Seq<NowSurfaceDef>, int),
> {
    match rest {
        None => None,
        Some((s, k)) => Some((acc + s, k)),
    }
}

spec fn maps_prepended(acc: Seq<NowSurfaceMap>, rest: Option<(Seq<NowSurfaceMap>, int)>) -> Option<
    (Seq<NowSurfaceMap>, int),
> {
    match rest {
        None => None,
        Some((s, k)) => Some((acc + s, k)),
    }
}

proof fn lemma_defs_prepended_step(
    acc: Seq<NowSurfaceDef>,
    d: NowSurfaceDef,
    rest: Option<(Seq<NowSurfaceDef>, int)>,
)
    ensures
        defs_prepended(acc, defs_prepended(seq![d], rest)) == defs_prepended(acc.push(d), rest),
{
    match rest {
        None => {},
        Some((s, k)) => {
            assert(acc + (seq![d] + s) =~= acc.push(d) + s);
        },
    }
}

proof fn lemma_maps_prepended_step(
    acc: Seq<NowSurfaceMap>,
    m: NowSurfaceMap,
    rest: Option<(Seq<NowSurfaceMap>, int)>,
)
    ensures
        maps_prepended(acc, maps_prepended(seq![m], rest)) == maps_prepended(acc.push(m), rest),
{
    match rest {
        None => {},
        Some((s, k)) => {
            assert(acc + (seq![m] + s) =~= acc.push(m) + s);
        },
    }
}

/// Reading a run laid down as the image of `s` gives back exactly `s`.
pub proof fn lemma_dec_defs_of_bytes(b: Seq<u8>, i: int, s: Seq<NowSurfaceDef>)
    requires
        0 <= i,
        i + 16 * s.len() <= b.len(),
        b.subrange(i, i + 16 * s.len()) == defs_bytes(s),
    ensures
        dec_defs(b, i, s.len()) == Some((s, i + 16 * s.len())),
    decreases s.len(),
{
    lemma_defs_bytes_len(s);
    if s.len() == 0 {
        assert(s =~= Seq::<NowSurfaceDef>::empty());
    } else {
        let e = defs_bytes(s);
        let rest = defs_bytes(s.drop_first());
        lemma_defs_bytes_len(s.drop_first());
        assert forall|k: int| 0 <= k < 16 * s.len() implies b[i + k] == e[k] by {
            assert(b.subrange(i, i + 16 * s.len())[k] == b[i + k]);
        }
        assert(b.subrange(i, i + 16) =~= def_bytes(s[0])) by {
            assert forall|k: int| 0 <= k < 16 implies b.subrange(i, i + 16)[k] == def_bytes(
                s[0],
            )[k] by {
                assert(b.subrange(i, i + 16)[k] == b[i + k]);
                assert(e[k] == def_bytes(s[0])[k]);
            }
        }
        lemma_dec_def_of_bytes(b, i, s[0]);
        assert(b.subrange(i + 16, i + 16 * s.len()) =~= rest) by {
            assert forall|k: int| 0 <= k < 16 * s.len() - 16 implies b.subrange(
                i + 16,
                i + 16 * s.len(),
            )[k] == rest[k] by {
                assert(b.subrange(i + 16, i + 16 * s.len())[k] == b[i + (16 + k)]);
                assert(e[16 + k] == rest[k]);
            }
        }
        lemma_dec_defs_of_bytes(b, i + 16, s.drop_first());
        assert(seq![s[0]] + s.drop_first() =~= s);
    }
}

/// Reading a run laid down as the image of `s` gives back exactly `s`.
pub proof fn lemma_dec_maps_of_bytes(b: Seq<u8>, i: int, s: Seq<NowSurfaceMap>)
    requires
        0 <= i,
        i + 16 * s.len() <= b.len(),
        b.subrange(i, i + 16 * s.len()) == maps_bytes(s),
    ensures
        dec_maps(b, i, s.len()) == Some((s, i + 16 * s.len())),
    decreases s.len(),
{
    lemma_maps_bytes_len(s);
    if s.len() == 0 {
        assert(s =~= Seq::<NowSurfaceMap>::empty());
    } else {
        let e = maps_bytes(s);
        let rest = maps_bytes(s.drop_first());
        lemma_maps_bytes_len(s.drop_first());
        assert forall|k: int| 0 <= k < 16 * s.len() implies b[i + k] == e[k] by {
            assert(b.subrange(i, i + 16 * s.len())[k] == b[i + k]);
        }
        assert(b.subrange(i, i + 16) =~= map_bytes(s[0])) by {
            assert forall|k: int| 0 <= k < 16 implies b.subrange(i, i + 16)[k] == map_bytes(
                s[0],
            )[k] by {
                assert(b.subrange(i, i + 16)[k] == b[i + k]);
                assert(e[k] == map_bytes(s[0])[k]);
            }
        }
        lemma_dec_map_of_bytes(b, i, s[0]);
        assert(b.subrange(i + 16, i + 16 * s.len()) =~= rest) by {
            assert forall|k: int| 0 <= k < 16 * s.len() - 16 implies b.subrange(
                i + 16,
                i + 16 * s.len(),
            )[k] == rest[k] by {
                assert(b.subrange(i + 16, i + 16 * s.len())[k] == b[i + (16 + k)]);
                assert(e[16 + k] == rest[k]);
            }
        }
        lemma_dec_maps_of_bytes(b, i + 16, s.drop_first());
        assert(seq![s[0]] + s.drop_first() =~= s);
    }
}

/// Append the concatenated wire images of every definition, in order.
pub fn encode_defs(defs: &Vec<NowSurfaceDef>, buf: &mut Vec<u8>)
    ensures
        final(buf)@ == old(buf)@ + defs_bytes(defs@),
{
    let ghost buf0: Seq<u8> = buf@;
    let n = defs.len();
    let mut idx: usize = 0;
    while idx < n
        invariant
            n == defs.len(),
            idx <= n,
            buf@ == buf0 + defs_bytes(defs@.take(idx as int)),
        decreases n - idx,
    {
        proof {
            lemma_defs_bytes_push(defs@.take(idx as int), defs@[idx as int]);
            assert(defs@.take(idx as int).push(defs@[idx as int]) =~= defs@.take(idx as int + 1));
        }
        defs[idx].encode_into(buf);
        proof {
            assert(buf@ =~= buf0 + defs_bytes(defs@.take(idx as int + 1)));
        }
        idx = idx + 1;
    }
    proof {
        assert(defs@.take(n as int) =~= defs@);
    }
}

/// Append the concatenated wire images of every mapping, in order.
pub fn encode_maps(maps: &Vec<NowSurfaceMap>, buf: &mut Vec<u8>)
    ensures
        final(buf)@ == old(buf)@ + maps_bytes(maps@),
{
    let ghost buf0: Seq<u8> = buf@;
    let n = maps.len();
    let mut idx: usize = 0;
    while idx < n
        invariant
            n == maps.len(),
            idx <= n,
            buf@ == buf0 + maps_bytes(maps@.take(idx as int)),
        decreases n - idx,
    {
        proof {
            lemma_maps_bytes_push(maps@.take(idx as int), maps@[idx as int]);
            assert(maps@.take(idx as int).push(maps@[idx as int]) =~= maps@.take(idx as int + 1));
        }
        maps[idx].encode_into(buf);
        proof {
            assert(buf@ =~= buf0 + maps_bytes(maps@.take(idx as int + 1)));
        }
        idx = idx + 1;
    }
    proof {
        assert(maps@.take(n as int) =~= maps@);
    }
}

/// Read exactly `n` surface definitions, advancing the position; the first
/// failing element fails the whole run, wrapped with `entity`'s context.
pub fn decode_defs(buf: &[u8], pos: &mut usize, n: u8, entity: EntityName) -> (r: Result<
    Vec<NowSurfaceDef>,
    ProtoError,
>)
    ensures
        match dec_defs(buf@, *old(pos) as int, n as nat) {
            Some(p) => r is Ok && r->Ok_0@ == p.0 && *final(pos) == p.1,
            None => {
                &&& r is Err
                &&& r->Err_0.wf()
                &&& (r->Err_0.root_kind() is Decoding || r->Err_0.root_kind()
                    is InvalidDiscriminant)
            },
        },
{
    let mut p: usize = *pos;
    let count: usize = n as usize;
    let mut out: Vec<NowSurfaceDef> = Vec::new();
    let mut idx: usize = 0;
    while idx < count
        invariant
            idx <= count,
            count == n as nat,
            out@.len() == idx,
            dec_defs(buf@, *pos as int, n as nat) == defs_prepended(
                out@,
                dec_defs(buf@, p as int, (count - idx) as nat),
            ),
        decreases count - idx,
    {
        let ghost p_before: int = p as int;
        let d = match NowSurfaceDef::decode_from(buf, &mut p) {
            Ok(d) => d,
            Err(e) => {
                proof {
                    assert(dec_def(buf@, p_before) is None);
                    assert(dec_defs(buf@, p_before, (count - idx) as nat) is None);
                }
                return Err(
                    e.chain(
                        ProtoErrorKind::Decoding(entity),
                        "couldn't decode an element of the collection",
                    ),
                );
            },
        };
        proof {
            let rest = dec_defs(buf@, p as int, (count - idx - 1) as nat);
            assert(dec_defs(buf@, p_before, (count - idx) as nat) == defs_prepended(
                seq![d],
                rest,
            ));
            lemma_defs_prepended_step(out@, d, rest);
        }
        out.push(d);
        idx = idx + 1;
    }
    proof {
        assert(dec_defs(buf@, p as int, 0) == Some((Seq::<NowSurfaceDef>::empty(), p as int)));
        assert(out@ + Seq::<NowSurfaceDef>::empty() =~= out@);
    }
    *pos = p;
    Ok(out)
}

/// Read exactly `n` surface mappings, advancing the position; the first
/// failing element fails the whole run, wrapped with `entity`'s context.
pub fn decode_maps(buf: &[u8], pos: &mut usize, n: u8, entity: EntityName) -> (r: Result<
    Vec<NowSurfaceMap>,
    ProtoError,
>)
    ensures
        match dec_maps(buf@, *old(pos) as int, n as nat) {
            Some(p) => r is Ok && r->Ok_0@ == p.0 && *final(pos) == p.1,
            None => {
                &&& r is Err
                &&& r->Err_0.wf()
                &&& r->Err_0.root_kind() is Decoding
            },
        },
{
    let mut p: usize = *pos;
    let count: usize = n as usize;
    let mut out: Vec<NowSurfaceMap> = Vec::new();
    let mut idx: usize = 0;
    while idx < count
        invariant
            idx <= count,
            count == n as nat,
            out@.len() == idx,
            dec_maps(buf@, *pos as int, n as nat) == maps_prepended(
                out@,
                dec_maps(buf@, p as int, (count - idx) as nat),
            ),
        decreases count - idx,
    {
        let ghost p_before: int = p as int;
        let m = match NowSurfaceMap::decode_from(buf, &mut p) {
            Ok(m) => m,
            Err(e) => {
                proof {
                    assert(dec_map(buf@, p_before) is None);
                    assert(dec_maps(buf@, p_before, (count - idx) as nat) is None);
                }
                return Err(
                    e.chain(
                        ProtoErrorKind::Decoding(entity),
                        "couldn't decode an element of the collection",
                    ),
                );
            },
        };
        proof {
            let rest = dec_maps(buf@, p as int, (count - idx - 1) as nat);
            assert(dec_maps(buf@, p_before, (count - idx) as nat) == maps_prepended(
                seq![m],
                rest,
            ));
            lemma_maps_prepended_step(out@, m, rest);
        }
        out.push(m);
        idx = idx + 1;
    }
    proof {
        assert(dec_maps(buf@, p as int, 0) == Some((Seq::<NowSurfaceMap>::empty(), p as int)));
        assert(out@ + Seq::<NowSurfaceMap>::empty() =~= out@);
    }
    *pos = p;
    Ok(out)
}

} // verus!
