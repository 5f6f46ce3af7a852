use vstd::prelude::*;

verus! {

/// Zigzag coding: 0, -1, 1, -2, 2, ... become 0, 1, 2, 3, 4, ...
pub open spec fn zigzag(n: int) -> int {
    if n >= 0 {
        2 * n
    } else {
        -2 * n - 1
    }
}

/// The signed value that a zigzag code stands for.
pub open spec fn unzigzag(u: int) -> int {
    if u % 2 == 0 {
        u / 2
    } else {
        -(u / 2) - 1
    }
}

/// Zigzag coding round trip: decoding the code of a value gives the value.
pub proof fn lemma_zigzag_round_trip(n: int)
    ensures
        unzigzag(zigzag(n)) == n,
        zigzag(n) >= 0,
{
}

/// The zigzag code of a signed 64-bit value.
pub fn zigzag_encode(n: i64) -> (r: u64)
    ensures
        r as int == zigzag(n as int),
{
    if n >= 0 {
        (n as u64) * 2
    } else {
        let m: u64 = (-(n + 1)) as u64;
        m * 2 + 1
    }
}

/// The signed value of a zigzag code.
pub fn zigzag_decode(u: u64) -> (r: i64)
    ensures
        r as int == unzigzag(u as int),
{
    let h: u64 = u / 2;
    if u % 2 == 0 {
        h as i64
    } else {
        -(h as i64) - 1
    }
}

/// The bytes of a base-128 varint: seven bits a byte, least significant
/// first, the high bit set on every byte but the last.
pub open spec fn varint_bytes(v: nat) -> Seq<u8>
    decreases v,
{
    if v < 128 {
        seq![v as u8]
    } else {
        seq![(v % 128 + 128) as u8] + varint_bytes(v / 128)
    }
}

/// The varint at `pos`: its value and the position after it; `None` where
/// the bytes end before its last byte.
pub open spec fn varint_at(data: Seq<u8>, pos: int) -> Option<(int, int)>
    decreases data.len() - pos,
{
    if pos < 0 || pos >= data.len() {
        None
    } else if data[pos] < 128 {
        Some((data[pos] as int, pos + 1))
    } else {
        match varint_at(data, pos + 1) {
            Some(p) => Some((data[pos] - 128 + 128 * p.0, p.1)),
            None => None,
        }
    }
}

/// Appends the varint of a value.
pub fn write_varint(out: &mut Vec<u8>, v: u64)
    ensures
        final(out)@ == old(out)@ + varint_bytes(v as nat),
    decreases v,
{
    if v < 128 {
        out.push(v as u8);
        assert(final(out)@ =~= old(out)@ + varint_bytes(v as nat));
    } else {
        out.push((v % 128 + 128) as u8);
        write_varint(out, v / 128);
        assert(out@ =~= old(out)@ + varint_bytes(v as nat));
    }
}

/// Reads the varint at `pos`; `None` where the bytes end inside it or its
/// value does not fit in 64 bits.
pub fn read_varint(data: &Vec<u8>, pos: usize) -> (r: Option<(u64, usize)>)
    ensures
        match r {
            Some(p) => varint_at(data@, pos as int) == Some((p.0 as int, p.1 as int)),
            None => varint_at(data@, pos as int) is None || varint_at(data@, pos as int)->Some_0.0
                > u64::MAX,
        },
    decreases data@.len() - pos,
{
    if pos >= data.len() {
        return None;
    }
    let b = data[pos];
    if b < 128 {
        return Some((b as u64, pos + 1));
    }
    match read_varint(data, pos + 1) {
        Some(p) => {
            let (v, end) = p;
            if v > (u64::MAX - 127) / 128 {
                None
            } else {
                Some(((b - 128) as u64 + 128 * v, end))
            }
        },
        None => None,
    }
}

/// A varint followed by other bytes reads back as its value.
pub proof fn lemma_varint_round_trip(v: nat, data: Seq<u8>, pos: int)
    requires
        0 <= pos,
        pos + varint_bytes(v).len() <= data.len(),
        data.subrange(pos, pos + varint_bytes(v).len()) == varint_bytes(v),
    ensures
        varint_at(data, pos) == Some((v as int, pos + varint_bytes(v).len())),
    decreases v,
{
    let b = varint_bytes(v);
    assert(data[pos] == b[0]);
    if v >= 128 {
        let rest = varint_bytes(v / 128);
        assert(b =~= seq![(v % 128 + 128) as u8] + rest);
        assert(data.subrange(pos + 1, pos + 1 + rest.len()) =~= rest) by {
            assert forall|i: int| 0 <= i < rest.len() implies data.subrange(
                pos + 1,
                pos + 1 + rest.len(),
            )[i] == rest[i] by {
                assert(data[pos + 1 + i] == data.subrange(pos, pos + b.len())[i + 1]);
            }
        }
        lemma_varint_round_trip(v / 128, data, pos + 1);
    }
}

/// The bytes of a packed column of signed values: the varint of each zigzag
/// code in turn.
pub open spec fn packed_bytes(col: Seq<i64>) -> Seq<u8>
    decreases col.len(),
{
    if col.len() == 0 {
        Seq::empty()
    } else {
        packed_bytes(col.drop_last()) + varint_bytes(zigzag(col.last() as int) as nat)
    }
}

/// Packs a column of signed values.
pub fn pack_sint64(col: &Vec<i64>) -> (r: Vec<u8>)
    ensures
        r@ == packed_bytes(col@),
{
    let mut out: Vec<u8> = Vec::new();
    let mut i: usize = 0;
    while i < col.len()
        invariant
            0 <= i <= col@.len(),
            out@ == packed_bytes(col@.take(i as int)),
        decreases col@.len() - i,
    {
        let z = zigzag_encode(col[i]);
        write_varint(&mut out, z);
        proof {
            assert(col@.take(i + 1).drop_last() == col@.take(i as int));
        }
        i = i + 1;
    }
    assert(col@.take(col@.len() as int) == col@);
    out
}

/// The column that packed bytes hold, read from `pos` to the end; `None`
/// where a varint is cut short or a code does not fit in 64 bits.
pub open spec fn unpacked(data: Seq<u8>, pos: int) -> Option<Seq<int>>
    decreases data.len() - pos,
{
    if pos < 0 || pos >= data.len() {
        Some(Seq::empty())
    } else {
        match varint_at(data, pos) {
            Some(p) => if pos < p.1 <= data.len() && p.0 <= u64::MAX {
                match unpacked(data, p.1) {
                    Some(rest) => Some(seq![unzigzag(p.0)] + rest),
                    None => None,
                }
            } else {
                None
            },
            None => None,
        }
    }
}

proof fn lemma_varint_advances(data: Seq<u8>, pos: int)
    requires
        varint_at(data, pos) is Some,
    ensures
        varint_at(data, pos)->Some_0.1 > pos,
        varint_at(data, pos)->Some_0.1 <= data.len(),
        varint_at(data, pos)->Some_0.0 >= 0,
    decreases data.len() - pos,
{
    if data[pos] >= 128 {
        lemma_varint_advances(data, pos + 1);
    }
}

/// Unpacks a column of signed values; `None` where a varint is cut short or
/// a code does not fit in 64 bits.
pub fn unpack_sint64(data: &Vec<u8>) -> (r: Option<Vec<i64>>)
    ensures
        match r {
            Some(v) => unpacked(data@, 0) == Some(v@.map_values(|x: i64| x as int)),
            None => unpacked(data@, 0) is None,
        },
{
    let mut out: Vec<i64> = Vec::new();
    let mut pos: usize = 0;
    while pos < data.len()
        invariant
            0 <= pos <= data@.len(),
            unpacked(data@, 0) is Some ==> unpacked(data@, pos as int) is Some,
            unpacked(data@, pos as int) is Some ==> unpacked(data@, 0) == Some(
                out@.map_values(|x: i64| x as int) + unpacked(data@, pos as int)->Some_0,
            ),
        decreases data@.len() - pos,
    {
        match read_varint(data, pos) {
            Some(p) => {
                let (u, end) = p;
                proof {
                    lemma_varint_advances(data@, pos as int);
                }
                let x = zigzag_decode(u);
                let ghost prev = out@;
                out.push(x);
                proof {
                    if unpacked(data@, end as int) is Some {
                        let tail = unpacked(data@, end as int)->Some_0;
                        assert(unpacked(data@, pos as int) == Some(seq![x as int] + tail));
                        assert(out@.map_values(|x: i64| x as int) =~= prev.map_values(|x: i64| x as int).push(x as int));
                        assert(prev.map_values(|x: i64| x as int) + (seq![x as int] + tail) =~= out@.map_values(|x: i64| x as int) + tail);
                    }
                }
                pos = end;
            },
            None => {
                proof {
                    assert(unpacked(data@, pos as int) is None);
                }
                return None;
            },
        }
    }
    proof {
        assert(unpacked(data@, pos as int) == Some(Seq::<int>::empty()));
        assert(out@.map_values(|x: i64| x as int) + Seq::<int>::empty() =~= out@.map_values(|x: i64| x as int));
    }
    Some(out)
}

proof fn lemma_packed_front(col: Seq<i64>)
    requires
        col.len() > 0,
    ensures
        packed_bytes(col) == varint_bytes(zigzag(col[0] as int) as nat) + packed_bytes(col.drop_first()),
    decreases col.len(),
{
    if col.len() > 1 {
        lemma_packed_front(col.drop_last());
        assert(col.drop_last().drop_first() == col.drop_first().drop_last());
        assert(col.drop_first().last() == col.last());
        assert(col.drop_last()[0] == col[0]);
        assert(packed_bytes(col.drop_first()) == packed_bytes(col.drop_first().drop_last()) + varint_bytes(
            zigzag(col.drop_first().last() as int) as nat,
        ));
        assert(packed_bytes(col) =~= varint_bytes(zigzag(col[0] as int) as nat) + packed_bytes(col.drop_first()));
    } else {
        assert(col.drop_first().len() == 0);
        assert(col.drop_last().len() == 0);
        assert(col.last() == col[0]);
        assert(packed_bytes(col.drop_last()) == Seq::<u8>::empty());
        assert(packed_bytes(col.drop_first()) == Seq::<u8>::empty());
        assert(packed_bytes(col) =~= varint_bytes(zigzag(col[0] as int) as nat) + packed_bytes(col.drop_first()));
    }
}

proof fn lemma_unpack_suffix(data: Seq<u8>, pos: int, col: Seq<i64>)
    requires
        0 <= pos <= data.len(),
        data.subrange(pos, data.len() as int) == packed_bytes(col),
    ensures
        unpacked(data, pos) == Some(col.map_values(|x: i64| x as int)),
    decreases col.len(),
{
    if col.len() == 0 {
        assert(packed_bytes(col).len() == 0);
        assert(col.map_values(|x: i64| x as int) =~= Seq::<int>::empty());
    } else {
        lemma_packed_front(col);
        let z = zigzag(col[0] as int);
        lemma_zigzag_round_trip(col[0] as int);
        let vb = varint_bytes(z as nat);
        let rest = packed_bytes(col.drop_first());
        let sub = data.subrange(pos, data.len() as int);
        assert(sub =~= vb + rest);
        assert(data.subrange(pos, pos + vb.len()) =~= vb) by {
            assert forall|i: int| 0 <= i < vb.len() implies data.subrange(pos, pos + vb.len())[i] == vb[i] by {
                assert(data[pos + i] == sub[i]);
            }
        }
        lemma_varint_round_trip(z as nat, data, pos);
        lemma_varint_advances(data, pos);
        let e = pos + vb.len();
        assert(data.subrange(e, data.len() as int) =~= rest) by {
            assert forall|i: int| 0 <= i < rest.len() implies data.subrange(e, data.len() as int)[i] == rest[i] by {
                assert(data[e + i] == sub[vb.len() + i]);
            }
        }
        lemma_unpack_suffix(data, e, col.drop_first());
        assert(col.map_values(|x: i64| x as int) =~= seq![col[0] as int] + col.drop_first().map_values(|x: i64| x as int));
    }
}

/// Packed column round trip: unpacking the packing of a column gives the
/// column back, in its order.
pub proof fn lemma_pack_round_trip(col: Seq<i64>)
    ensures
        unpacked(packed_bytes(col), 0) == Some(col.map_values(|x: i64| x as int)),
{
    let d = packed_bytes(col);
    assert(d.subrange(0, d.len() as int) == d);
    lemma_unpack_suffix(d, 0, col);
}

} // verus!
