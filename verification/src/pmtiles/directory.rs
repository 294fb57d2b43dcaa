//! Directory pages: LEB128 varints, the four entry columns, and the search.

use vstd::arithmetic::power2::*;
use vstd::prelude::*;

use super::error::ArchiveError;

verus! {

/// Directory entries that will be decoded from one page. Guards the decode loop
/// against a bogus entry count.
pub const MAX_DIRECTORY_ENTRIES: u64 = 4_000_000;

/// One directory entry: a tile id (or a run of them), and where its bytes live
/// relative to the tile-data or leaf-directory region.
#[derive(Debug, Clone, Copy, PartialEq, Eq, Structural)]
pub struct Entry {
    pub tile_id: u64,
    pub offset: u64,
    pub length: u32,
    /// `0` marks a pointer to a leaf directory rather than a tile body.
    pub run_length: u32,
}

/// Decode failures of a page, as the error that reports each of them.
pub open spec fn malformed<T>(why: &'static str) -> Result<T, ArchiveError> {
    Err(ArchiveError::MalformedDirectory(why))
}

// ---------------------------------------------------------------------------
// Varints
// ---------------------------------------------------------------------------

/// What byte `b` contributes as the `i`-th byte of a varint: its low seven bits
/// at bit `7 * i`.
pub open spec fn varint_group(b: u8, i: nat) -> nat {
    (b % 128) as nat * pow2(7 * i)
}

/// The varint that continues at byte `i` of the one starting at `at`: the sum of
/// the groups up to and including the first byte below 128, and how many bytes
/// the whole varint takes. Of a tenth byte only the lowest bit fits in 64 bits, so
/// one above 1 overflows.
pub open spec fn varint_from(bytes: Seq<u8>, at: nat, i: nat) -> Result<(nat, nat), ArchiveError>
    decreases 10 - i,
{
    if i >= 10 {
        malformed("varint overflows 64 bits")
    } else if at + i >= bytes.len() {
        malformed("varint runs past the page")
    } else if i == 9 && bytes[(at + i) as int] > 1 {
        malformed("varint overflows 64 bits")
    } else if bytes[(at + i) as int] < 128 {
        Ok((varint_group(bytes[(at + i) as int], i), i + 1))
    } else {
        match varint_from(bytes, at, i + 1) {
            Ok((rest, used)) => Ok((varint_group(bytes[(at + i) as int], i) + rest, used)),
            Err(e) => Err(e),
        }
    }
}

/// The varint at `at`, as its value and the bytes it takes.
pub open spec fn varint_spec(bytes: Seq<u8>, at: nat) -> Result<(nat, nat), ArchiveError> {
    varint_from(bytes, at, 0)
}

/// LEB128 varint as the directory format uses: the value and how many bytes it
/// takes.
pub fn varint(bytes: &[u8], at: usize) -> (r: Result<(u64, usize), ArchiveError>)
    ensures
        match (r, varint_spec(bytes@, at as nat)) {
            (Ok((value, used)), Ok((v, n))) => value == v && used == n && 1 <= n && at + n <= bytes.len(),
            (Err(e), Err(f)) => e == f,
            _ => false,
        },
{
    let mut value: u64 = 0;
    let mut weight: u64 = 1;
    let mut i: usize = 0;
    proof {
        lemma2_to64();
    }
    loop
        invariant
            i < 10,
            at + i <= bytes@.len() || i == 0,
            weight == pow2(7 * i as nat),
            value < weight,
            match (varint_from(bytes@, at as nat, i as nat), varint_spec(bytes@, at as nat)) {
                (Ok((rest, used)), Ok((v, n))) => value + rest == v && used == n,
                (Err(e), Err(f)) => e == f,
                _ => false,
            },
        decreases 10 - i,
    {
        if at >= bytes.len() || i >= bytes.len() - at {
            return Err(ArchiveError::MalformedDirectory("varint runs past the page"));
        }
        let byte: u8 = bytes[at + i];
        proof {
            lemma2_to64();
            lemma2_to64_rest();
        }
        if i == 9 {
            if byte > 1 {
                return Err(ArchiveError::MalformedDirectory("varint overflows 64 bits"));
            }
            let top: u64 = byte as u64;
            assert(top * weight <= weight) by (nonlinear_arith)
                requires
                    0 <= top <= 1,
                    weight > 0,
            ;
            assert(top * weight == varint_group(byte, 9));
            return Ok((value + top * weight, i + 1));
        }
        let group: u64 = (byte % 128) as u64;
        proof {
            lemma_pow2_adds(7 * i as nat, 7);
            assert(7 * i as nat + 7 == 7 * (i + 1) as nat);
            if i < 8 {
                lemma_pow2_strictly_increases(7 * (i + 1) as nat, 63);
            }
            assert(group * weight + weight <= 128 * weight) by (nonlinear_arith)
                requires
                    0 <= group <= 127,
                    weight > 0,
            ;
        }
        if byte < 128 {
            return Ok((value + group * weight, i + 1));
        }
        value = value + group * weight;
        weight = weight * 128;
        i = i + 1;
    }
}

// ---------------------------------------------------------------------------
// Columns
// ---------------------------------------------------------------------------

/// `column` with `done` in front of its values.
pub open spec fn after<T>(
    done: Seq<T>,
    column: Result<(Seq<T>, nat), ArchiveError>,
) -> Result<(Seq<T>, nat), ArchiveError> {
    match column {
        Ok((values, end)) => Ok((done + values, end)),
        Err(e) => Err(e),
    }
}

/// The tile ids of `n` entries, whose deltas start at `at` and are counted on
/// from `last`; and where the column ends.
pub open spec fn ids_from(bytes: Seq<u8>, at: nat, n: nat, last: nat) -> Result<
    (Seq<u64>, nat),
    ArchiveError,
>
    decreases n,
{
    if n == 0 {
        Ok((seq![], at))
    } else {
        match varint_spec(bytes, at) {
            Err(e) => Err(e),
            Ok((delta, used)) => if last + delta > u64::MAX {
                malformed("tile id overflows")
            } else {
                after(
                    seq![(last + delta) as u64],
                    ids_from(bytes, at + used, (n - 1) as nat, last + delta),
                )
            },
        }
    }
}

/// `n` values that must each fit in 32 bits, starting at `at`; and where the
/// column ends.
pub open spec fn narrow_from(bytes: Seq<u8>, at: nat, n: nat, why: &'static str) -> Result<
    (Seq<u32>, nat),
    ArchiveError,
>
    decreases n,
{
    if n == 0 {
        Ok((seq![], at))
    } else {
        match varint_spec(bytes, at) {
            Err(e) => Err(e),
            Ok((value, used)) => if value > u32::MAX {
                malformed(why)
            } else {
                after(seq![value as u32], narrow_from(bytes, at + used, (n - 1) as nat, why))
            },
        }
    }
}

/// Where one entry's bytes start: a stored value of `0` means "directly after
/// the previous entry", any other value is the offset plus one.
pub open spec fn offset_of(raw: nat, previous_end: Option<nat>) -> Result<nat, ArchiveError> {
    if raw > 0 {
        Ok((raw - 1) as nat)
    } else {
        match previous_end {
            None => malformed("first entry uses the contiguous-offset encoding"),
            Some(end) => if end > u64::MAX {
                malformed("entry offset overflows")
            } else {
                Ok(end)
            },
        }
    }
}

/// The offsets of entries with the given `lengths`, starting at `at`; and where
/// the column ends.
pub open spec fn offsets_from(
    bytes: Seq<u8>,
    at: nat,
    lengths: Seq<u32>,
    previous_end: Option<nat>,
) -> Result<(Seq<u64>, nat), ArchiveError>
    decreases lengths.len(),
{
    if lengths.len() == 0 {
        Ok((seq![], at))
    } else {
        match varint_spec(bytes, at) {
            Err(e) => Err(e),
            Ok((raw, used)) => match offset_of(raw, previous_end) {
                Err(e) => Err(e),
                Ok(offset) => after(
                    seq![offset as u64],
                    offsets_from(
                        bytes,
                        at + used,
                        lengths.drop_first(),
                        Some(offset + lengths[0] as nat),
                    ),
                ),
            },
        }
    }
}

/// The entries that four columns describe.
pub open spec fn zip_columns(
    ids: Seq<u64>,
    runs: Seq<u32>,
    lengths: Seq<u32>,
    offsets: Seq<u64>,
) -> Seq<Entry> {
    Seq::new(
        ids.len(),
        |i: int|
            Entry {
                tile_id: ids[i],
                offset: offsets[i],
                length: lengths[i],
                run_length: runs[i],
            },
    )
}

/// The entries of a decompressed directory page: the entry count, then the
/// columns of id deltas, run lengths, lengths and offsets, one after another.
pub open spec fn directory_spec(bytes: Seq<u8>) -> Result<Seq<Entry>, ArchiveError> {
    match varint_spec(bytes, 0) {
        Err(e) => Err(e),
        Ok((count, used)) => if count > MAX_DIRECTORY_ENTRIES {
            malformed("directory declares an implausible entry count")
        } else {
            match ids_from(bytes, used, count, 0) {
                Err(e) => Err(e),
                Ok((ids, a)) => match narrow_from(bytes, a, count, "run length exceeds u32") {
                    Err(e) => Err(e),
                    Ok((runs, b)) => match narrow_from(
                        bytes,
                        b,
                        count,
                        "entry length exceeds u32",
                    ) {
                        Err(e) => Err(e),
                        Ok((lengths, c)) => match offsets_from(bytes, c, lengths, None) {
                            Err(e) => Err(e),
                            Ok((offsets, _)) => Ok(zip_columns(ids, runs, lengths, offsets)),
                        },
                    },
                },
            }
        },
    }
}

/// Entries in the order of their tile ids.
pub open spec fn sorted(entries: Seq<Entry>) -> bool {
    forall|i: int, j: int|
        #![trigger entries[i], entries[j]]
        0 <= i <= j < entries.len() ==> entries[i].tile_id <= entries[j].tile_id
}

fn read_ids(bytes: &[u8], at: usize, n: usize) -> (r: Result<(Vec<u64>, usize), ArchiveError>)
    ensures
        match (r, ids_from(bytes@, at as nat, n as nat, 0)) {
            (Ok((ids, end)), Ok((s, e))) => ids@ == s && end == e && s.len() == n && (forall|i: int, j: int|
                #![trigger s[i], s[j]]
                0 <= i <= j < s.len() ==> s[i] <= s[j]),
            (Err(e), Err(f)) => e == f,
            _ => false,
        },
{
    let mut ids: Vec<u64> = Vec::new();
    let mut cursor: usize = at;
    let mut last: u64 = 0;
    let mut i: usize = 0;
    assert(after(ids@, ids_from(bytes@, at as nat, n as nat, 0)) == ids_from(
        bytes@,
        at as nat,
        n as nat,
        0,
    )) by {
        match ids_from(bytes@, at as nat, n as nat, 0) {
            Ok((s, e)) => {
                assert(ids@ + s =~= s);
            },
            Err(e) => {},
        }
    }
    while i < n
        invariant
            i <= n,
            ids@.len() == i,
            ids_from(bytes@, at as nat, n as nat, 0) == after(
                ids@,
                ids_from(bytes@, cursor as nat, (n - i) as nat, last as nat),
            ),
            forall|a: int, b: int|
                #![trigger ids@[a], ids@[b]]
                0 <= a <= b < ids@.len() ==> ids@[a] <= ids@[b],
            forall|a: int| 0 <= a < ids@.len() ==> #[trigger] ids@[a] <= last,
        decreases n - i,
    {
        let (delta, used) = match varint(bytes, cursor) {
            Ok(v) => v,
            Err(e) => {
                return Err(e);
            },
        };
        let ghost rest = ids_from(
            bytes@,
            (cursor + used) as nat,
            (n - i - 1) as nat,
            (last + delta) as nat,
        );
        let ghost before = ids@;
        cursor = cursor + used;
        last = match last.checked_add(delta) {
            Some(id) => id,
            None => {
                return Err(ArchiveError::MalformedDirectory("tile id overflows"));
            },
        };
        ids.push(last);
        i = i + 1;
        assert(after(before, after(seq![last], rest)) == after(ids@, rest)) by {
            match rest {
                Ok((s, e)) => {
                    assert(before + (seq![last] + s) =~= ids@ + s);
                },
                Err(e) => {},
            }
        }
    }
    assert(ids@ + Seq::<u64>::empty() =~= ids@);
    Ok((ids, cursor))
}

fn read_narrow(bytes: &[u8], at: usize, n: usize, why: &'static str) -> (r: Result<
    (Vec<u32>, usize),
    ArchiveError,
>)
    ensures
        match (r, narrow_from(bytes@, at as nat, n as nat, why)) {
            (Ok((values, end)), Ok((s, e))) => values@ == s && end == e && s.len() == n,
            (Err(e), Err(f)) => e == f,
            _ => false,
        },
{
    let mut values: Vec<u32> = Vec::new();
    let mut cursor: usize = at;
    let mut i: usize = 0;
    assert(after(values@, narrow_from(bytes@, at as nat, n as nat, why)) == narrow_from(
        bytes@,
        at as nat,
        n as nat,
        why,
    )) by {
        match narrow_from(bytes@, at as nat, n as nat, why) {
            Ok((s, e)) => {
                assert(values@ + s =~= s);
            },
            Err(e) => {},
        }
    }
    while i < n
        invariant
            i <= n,
            values@.len() == i,
            narrow_from(bytes@, at as nat, n as nat, why) == after(
                values@,
                narrow_from(bytes@, cursor as nat, (n - i) as nat, why),
            ),
        decreases n - i,
    {
        let (value, used) = match varint(bytes, cursor) {
            Ok(v) => v,
            Err(e) => {
                return Err(e);
            },
        };
        let ghost rest = narrow_from(bytes@, (cursor + used) as nat, (n - i - 1) as nat, why);
        let ghost before = values@;
        cursor = cursor + used;
        if value > 0xffff_ffff {
            return Err(ArchiveError::MalformedDirectory(why));
        }
        values.push(value as u32);
        i = i + 1;
        assert(after(before, after(seq![value as u32], rest)) == after(values@, rest)) by {
            match rest {
                Ok((s, e)) => {
                    assert(before + (seq![value as u32] + s) =~= values@ + s);
                },
                Err(e) => {},
            }
        }
    }
    assert(values@ + Seq::<u32>::empty() =~= values@);
    Ok((values, cursor))
}

fn read_offsets(bytes: &[u8], at: usize, lengths: &Vec<u32>) -> (r: Result<
    Vec<u64>,
    ArchiveError,
>)
    ensures
        match (r, offsets_from(bytes@, at as nat, lengths@, None)) {
            (Ok(offsets), Ok((s, _))) => offsets@ == s && s.len() == lengths@.len(),
            (Err(e), Err(f)) => e == f,
            _ => false,
        },
{
    let mut offsets: Vec<u64> = Vec::new();
    let mut cursor: usize = at;
    let mut i: usize = 0;
    let ghost mut previous: Option<nat> = None;
    assert(lengths@.skip(0) =~= lengths@);
    assert(after(offsets@, offsets_from(bytes@, at as nat, lengths@, None)) == offsets_from(
        bytes@,
        at as nat,
        lengths@,
        None,
    )) by {
        match offsets_from(bytes@, at as nat, lengths@, None) {
            Ok((s, e)) => {
                assert(offsets@ + s =~= s);
            },
            Err(e) => {},
        }
    }
    while i < lengths.len()
        invariant
            i <= lengths@.len(),
            offsets@.len() == i,
            previous == (if i == 0 {
                None
            } else {
                Some((offsets@[i - 1] + lengths@[i - 1]) as nat)
            }),
            offsets_from(bytes@, at as nat, lengths@, None) == after(
                offsets@,
                offsets_from(bytes@, cursor as nat, lengths@.skip(i as int), previous),
            ),
        decreases lengths@.len() - i,
    {
        let (raw, used) = match varint(bytes, cursor) {
            Ok(v) => v,
            Err(e) => {
                return Err(e);
            },
        };
        let ghost before = offsets@;
        let offset: u64 = if raw > 0 {
            raw - 1
        } else if i == 0 {
            return Err(
                ArchiveError::MalformedDirectory("first entry uses the contiguous-offset encoding"),
            );
        } else {
            match offsets[i - 1].checked_add(lengths[i - 1] as u64) {
                Some(end) => end,
                None => {
                    return Err(ArchiveError::MalformedDirectory("entry offset overflows"));
                },
            }
        };
        let ghost next = Some((offset + lengths@[i as int]) as nat);
        let ghost rest = offsets_from(
            bytes@,
            (cursor + used) as nat,
            lengths@.skip(i + 1),
            next,
        );
        assert(lengths@.skip(i as int).drop_first() =~= lengths@.skip(i + 1));
        cursor = cursor + used;
        offsets.push(offset);
        i = i + 1;
        proof {
            previous = next;
        }
        assert(after(before, after(seq![offset], rest)) == after(offsets@, rest)) by {
            match rest {
                Ok((s, e)) => {
                    assert(before + (seq![offset] + s) =~= offsets@ + s);
                },
                Err(e) => {},
            }
        }
    }
    assert(offsets@ + Seq::<u64>::empty() =~= offsets@);
    Ok(offsets)
}

/// Decode a directory page. The entries come out sorted, whoever wrote the
/// page: tile ids are running sums of unsigned deltas.
pub fn parse_directory(bytes: &[u8]) -> (r: Result<Vec<Entry>, ArchiveError>)
    ensures
        match (r, directory_spec(bytes@)) {
            (Ok(entries), Ok(s)) => entries@ == s && sorted(s) && s.len() <= MAX_DIRECTORY_ENTRIES,
            (Err(e), Err(f)) => e == f,
            _ => false,
        },
{
    let (count, used) = match varint(bytes, 0) {
        Ok(v) => v,
        Err(e) => {
            return Err(e);
        },
    };
    if count > MAX_DIRECTORY_ENTRIES {
        return Err(
            ArchiveError::MalformedDirectory("directory declares an implausible entry count"),
        );
    }
    let n: usize = count as usize;
    let (ids, a) = match read_ids(bytes, used, n) {
        Ok(v) => v,
        Err(e) => {
            return Err(e);
        },
    };
    let (runs, b) = match read_narrow(bytes, a, n, "run length exceeds u32") {
        Ok(v) => v,
        Err(e) => {
            return Err(e);
        },
    };
    let (lengths, c) = match read_narrow(bytes, b, n, "entry length exceeds u32") {
        Ok(v) => v,
        Err(e) => {
            return Err(e);
        },
    };
    let offsets = match read_offsets(bytes, c, &lengths) {
        Ok(v) => v,
        Err(e) => {
            return Err(e);
        },
    };
    let mut entries: Vec<Entry> = Vec::new();
    let mut i: usize = 0;
    while i < n
        invariant
            i <= n,
            n == ids@.len() == runs@.len() == lengths@.len() == offsets@.len(),
            entries@ == zip_columns(ids@, runs@, lengths@, offsets@).take(i as int),
        decreases n - i,
    {
        entries.push(
            Entry {
                tile_id: ids[i],
                offset: offsets[i],
                length: lengths[i],
                run_length: runs[i],
            },
        );
        i = i + 1;
    }
    assert(entries@ =~= zip_columns(ids@, runs@, lengths@, offsets@));
    Ok(entries)
}

// ---------------------------------------------------------------------------
// Pages as they are written
// ---------------------------------------------------------------------------

/// A number as a page writes it: seven bits to a byte, the lowest first, and the
/// top bit of every byte but the last.
pub open spec fn leb128(v: nat) -> Seq<u8>
    decreases v,
{
    if v < 128 {
        seq![v as u8]
    } else {
        seq![(128 + v % 128) as u8] + leb128(v / 128)
    }
}

/// Numbers written one after the other.
pub open spec fn written(vals: Seq<nat>) -> Seq<u8>
    decreases vals.len(),
{
    if vals.len() == 0 {
        seq![]
    } else {
        written(vals.drop_last()) + leb128(vals.last())
    }
}

proof fn lemma_varint_at(bytes: Seq<u8>, at: nat, i: nat, v: nat)
    requires
        at + i + leb128(v).len() <= bytes.len(),
        bytes.subrange((at + i) as int, (at + i + leb128(v).len()) as int) == leb128(v),
        v * pow2(7 * i) <= u64::MAX,
        i == 0 || v > 0,
    ensures
        varint_from(bytes, at, i) == Ok::<(nat, nat), ArchiveError>(
            (v * pow2(7 * i), i + leb128(v).len()),
        ),
    decreases v,
{
    lemma2_to64();
    lemma2_to64_rest();
    let p = pow2(7 * i);
    if i >= 10 {
        lemma_pow2_strictly_increases(64, 7 * i);
        assert(v * p > u64::MAX) by (nonlinear_arith)
            requires
                v >= 1,
                p > 0x1_0000_0000_0000_0000,
        ;
    }
    if i == 9 {
        assert(p == 0x8000_0000_0000_0000);
        assert(v <= 1) by (nonlinear_arith)
            requires
                v * p <= u64::MAX,
                p == 0x8000_0000_0000_0000,
        ;
    }
    let b = bytes[(at + i) as int];
    assert(b == bytes.subrange((at + i) as int, (at + i + leb128(v).len()) as int)[0]);
    if v < 128 {
        assert(b == v);
    } else {
        let low = v % 128;
        let high = v / 128;
        let q = pow2(7 * (i + 1));
        assert(b == 128 + low);
        assert(b % 128 == low);
        lemma_pow2_adds(7 * i, 7);
        assert(7 * i + 7 == 7 * (i + 1));
        assert(q == p * 128);
        assert(low * p + high * q == v * p) by (nonlinear_arith)
            requires
                q == p * 128,
                v == 128 * high + low,
        ;
        assert(high * q <= u64::MAX) by (nonlinear_arith)
            requires
                low * p + high * q == v * p,
                v * p <= u64::MAX,
                low >= 0,
                p >= 0,
        ;
        assert(leb128(v).skip(1) =~= leb128(high));
        assert(bytes.subrange((at + i + 1) as int, (at + i + 1 + leb128(high).len()) as int)
            =~= leb128(v).skip(1)) by {
            let whole = bytes.subrange((at + i) as int, (at + i + leb128(v).len()) as int);
            assert(whole.skip(1) =~= bytes.subrange(
                (at + i + 1) as int,
                (at + i + 1 + leb128(high).len()) as int,
            ));
        }
        lemma_varint_at(bytes, at, i + 1, high);
    }
}

/// A number is read as it was written, wherever on a page it stands and whatever
/// stands around it.
pub proof fn law_numbers_are_read_as_written(before: Seq<u8>, v: u64, behind: Seq<u8>)
    ensures
        varint_spec(before + leb128(v as nat) + behind, before.len()) == Ok::<
            (nat, nat),
            ArchiveError,
        >((v as nat, leb128(v as nat).len())),
{
    let bytes = before + leb128(v as nat) + behind;
    lemma2_to64();
    assert(bytes.subrange(
        before.len() as int,
        (before.len() + leb128(v as nat).len()) as int,
    ) =~= leb128(v as nat));
    assert(v as nat * pow2(0) == v) by (nonlinear_arith)
        requires
            pow2(0) == 1,
    ;
    lemma_varint_at(bytes, before.len(), 0, v as nat);
}

/// Where a number of a row ends.
spec fn stop(vals: Seq<nat>, j: int) -> nat {
    written(vals.take(j)).len()
}

proof fn lemma_row(vals: Seq<nat>, j: int)
    requires
        0 <= j < vals.len(),
    ensures
        stop(vals, j + 1) == stop(vals, j) + leb128(vals[j]).len(),
        stop(vals, j + 1) <= written(vals).len(),
        written(vals).subrange(stop(vals, j) as int, stop(vals, j + 1) as int) == leb128(vals[j]),
    decreases vals.len(),
{
    assert(vals.take(j + 1).drop_last() =~= vals.take(j));
    let shorter = vals.drop_last();
    if j == vals.len() - 1 {
        assert(vals.take(j) =~= shorter);
        assert(vals.take(j + 1) =~= vals);
    } else {
        assert(shorter.take(j) =~= vals.take(j));
        assert(shorter.take(j + 1) =~= vals.take(j + 1));
        lemma_row(shorter, j);
        assert(written(vals).subrange(stop(vals, j) as int, stop(vals, j + 1) as int) =~= written(
            shorter,
        ).subrange(stop(vals, j) as int, stop(vals, j + 1) as int));
    }
    assert(written(vals).subrange(stop(vals, j) as int, stop(vals, j + 1) as int) =~= leb128(
        vals[j],
    ));
}

proof fn lemma_row_read(vals: Seq<nat>, j: int)
    requires
        0 <= j < vals.len(),
        vals[j] <= u64::MAX,
    ensures
        varint_spec(written(vals), stop(vals, j)) == Ok::<(nat, nat), ArchiveError>(
            (vals[j], (stop(vals, j + 1) - stop(vals, j)) as nat),
        ),
        stop(vals, j) <= stop(vals, j + 1),
{
    lemma_row(vals, j);
    lemma2_to64();
    assert(vals[j] * pow2(0) == vals[j]) by (nonlinear_arith)
        requires
            pow2(0) == 1,
    ;
    lemma_varint_at(written(vals), stop(vals, j), 0, vals[j]);
}

/// Whether an entry starts where the one before it ends.
pub open spec fn follows(entries: Seq<Entry>, i: int) -> bool {
    i > 0 && entries[i].offset == entries[i - 1].offset + entries[i - 1].length
}

/// The numbers of a page: how many entries there are; by how much each tile id
/// exceeds the one before; the run lengths; the lengths; and the offsets, each as
/// zero where it is marked to follow the entry before it and plus one otherwise.
pub open spec fn page_numbers(entries: Seq<Entry>, marked: Seq<bool>) -> Seq<nat> {
    let n = entries.len() as int;
    Seq::new(
        (4 * n + 1) as nat,
        |j: int|
            if j == 0 {
                n as nat
            } else if j == 1 {
                entries[0].tile_id as nat
            } else if j <= n {
                (entries[j - 1].tile_id - entries[j - 2].tile_id) as nat
            } else if j <= 2 * n {
                entries[j - 1 - n].run_length as nat
            } else if j <= 3 * n {
                entries[j - 1 - 2 * n].length as nat
            } else if marked[j - 1 - 3 * n] {
                0
            } else {
                (entries[j - 1 - 3 * n].offset + 1) as nat
            },
    )
}

/// Whether entries can stand on a page with the given ones marked to follow: they
/// are in order and few enough, those that are marked do follow, and the others have
/// an offset that can be written.
pub open spec fn writable(entries: Seq<Entry>, marked: Seq<bool>) -> bool {
    &&& sorted(entries)
    &&& entries.len() <= 4_000_000
    &&& marked.len() == entries.len()
    &&& forall|i: int|
        0 <= i < entries.len() ==> if #[trigger] marked[i] {
            follows(entries, i)
        } else {
            entries[i].offset < u64::MAX
        }
}

proof fn lemma_ids_read(entries: Seq<Entry>, marked: Seq<bool>, k: int)
    requires
        writable(entries, marked),
        0 <= k <= entries.len(),
    ensures
        ids_from(
            written(page_numbers(entries, marked)),
            stop(page_numbers(entries, marked), 1 + k),
            (entries.len() - k) as nat,
            if k == 0 {
                0
            } else {
                entries[k - 1].tile_id as nat
            },
        ) == Ok::<(Seq<u64>, nat), ArchiveError>(
            (
                entries.skip(k).map_values(|e: Entry| e.tile_id),
                stop(page_numbers(entries, marked), (1 + entries.len()) as int),
            ),
        ),
    decreases entries.len() - k,
{
    let vals = page_numbers(entries, marked);
    let ids = entries.skip(k).map_values(|e: Entry| e.tile_id);
    if k == entries.len() {
        assert(ids =~= seq![]);
    } else {
        if k > 0 {
            assert(entries[k - 1].tile_id <= entries[k].tile_id);
        }
        assert(vals[1 + k] <= u64::MAX);
        lemma_row_read(vals, 1 + k);
        lemma_ids_read(entries, marked, k + 1);
        let rest = entries.skip(k + 1).map_values(|e: Entry| e.tile_id);
        assert(seq![entries[k].tile_id] + rest =~= ids);
    }
}

proof fn lemma_narrow_read(vals: Seq<nat>, from: int, values: Seq<u32>, k: int, why: &'static str)
    requires
        0 <= from,
        from + values.len() <= vals.len(),
        0 <= k <= values.len(),
        forall|i: int| 0 <= i < values.len() ==> vals[from + i] == #[trigger] values[i],
    ensures
        narrow_from(written(vals), stop(vals, from + k), (values.len() - k) as nat, why) == Ok::<
            (Seq<u32>, nat),
            ArchiveError,
        >((values.skip(k), stop(vals, from + values.len()))),
    decreases values.len() - k,
{
    if k == values.len() {
        assert(values.skip(k) =~= seq![]);
    } else {
        assert(vals[from + k] == values[k]);
        lemma_row_read(vals, from + k);
        lemma_narrow_read(vals, from, values, k + 1, why);
        assert(seq![values[k]] + values.skip(k + 1) =~= values.skip(k));
    }
}

proof fn lemma_offsets_read(entries: Seq<Entry>, marked: Seq<bool>, lengths: Seq<u32>, k: int)
    requires
        writable(entries, marked),
        lengths == entries.map_values(|e: Entry| e.length),
        0 <= k <= entries.len(),
    ensures
        offsets_from(
            written(page_numbers(entries, marked)),
            stop(page_numbers(entries, marked), 1 + 3 * entries.len() + k),
            lengths.skip(k),
            if k == 0 {
                None
            } else {
                Some((entries[k - 1].offset + entries[k - 1].length) as nat)
            },
        ) == Ok::<(Seq<u64>, nat), ArchiveError>(
            (
                entries.skip(k).map_values(|e: Entry| e.offset),
                stop(page_numbers(entries, marked), (1 + 4 * entries.len()) as int),
            ),
        ),
    decreases entries.len() - k,
{
    let vals = page_numbers(entries, marked);
    let n = entries.len() as int;
    let offsets = entries.skip(k).map_values(|e: Entry| e.offset);
    if k == n {
        assert(offsets =~= seq![]);
        assert(lengths.skip(k) =~= seq![]);
    } else {
        assert(marked[k] || !marked[k]);
        assert(vals[1 + 3 * n + k] == (if marked[k] {
            0nat
        } else {
            (entries[k].offset + 1) as nat
        }));
        lemma_row_read(vals, 1 + 3 * n + k);
        lemma_offsets_read(entries, marked, lengths, k + 1);
        assert(lengths.skip(k).drop_first() =~= lengths.skip(k + 1));
        assert(lengths.skip(k)[0] == entries[k].length);
        let rest = entries.skip(k + 1).map_values(|e: Entry| e.offset);
        assert(seq![entries[k].offset] + rest =~= offsets);
    }
}

/// A page is read as it was written: its entries come back as they were, whichever
/// of those that start where the one before ends are marked to follow it. So an
/// offset written as zero is the end of the entry before, and any other is one less
/// than what was written.
pub proof fn law_pages_are_read_as_written(entries: Seq<Entry>, marked: Seq<bool>)
    requires
        writable(entries, marked),
    ensures
        directory_spec(written(page_numbers(entries, marked))) == Ok::<Seq<Entry>, ArchiveError>(
            entries,
        ),
{
    let vals = page_numbers(entries, marked);
    let bytes = written(vals);
    let n = entries.len() as int;
    assert(vals.take(0) =~= seq![]);
    assert(stop(vals, 0) == 0);
    lemma_row_read(vals, 0);
    let ids = entries.map_values(|e: Entry| e.tile_id);
    let runs = entries.map_values(|e: Entry| e.run_length);
    let lengths = entries.map_values(|e: Entry| e.length);
    let offsets = entries.map_values(|e: Entry| e.offset);
    assert(entries.skip(0) =~= entries);
    assert(runs.skip(0) =~= runs);
    assert(lengths.skip(0) =~= lengths);
    lemma_ids_read(entries, marked, 0);
    assert forall|i: int| 0 <= i < runs.len() implies vals[1 + n + i] == #[trigger] runs[i] by {
        if n + i + 1 == 1 {
            assert(false);
        }
    }
    lemma_narrow_read(vals, 1 + n, runs, 0, "run length exceeds u32");
    assert forall|i: int| 0 <= i < lengths.len() implies vals[1 + 2 * n + i]
        == #[trigger] lengths[i] by {
        assert(1 + 2 * n + i > 2 * n);
    }
    lemma_narrow_read(vals, 1 + 2 * n, lengths, 0, "entry length exceeds u32");
    lemma_offsets_read(entries, marked, lengths, 0);
    assert(zip_columns(ids, runs, lengths, offsets) =~= entries);
}

/// Whether the `j`-th number stands at its place and ends where the next one
/// starts.
pub open spec fn stands(bytes: Seq<u8>, vals: Seq<nat>, places: Seq<nat>, j: int) -> bool {
    &&& places[j] < places[j + 1] <= bytes.len()
    &&& varint_spec(bytes, places[j]) == Ok::<(nat, nat), ArchiveError>(
        (vals[j], (places[j + 1] - places[j]) as nat),
    )
}

/// The numbers that a page is read as, one after the other.
pub open spec fn reads_as(bytes: Seq<u8>, vals: Seq<nat>, places: Seq<nat>) -> bool {
    &&& places.len() == vals.len() + 1
    &&& forall|j: int| 0 <= j < vals.len() ==> #[trigger] stands(bytes, vals, places, j)
}

/// Whether entries are what the numbers of a page say: ids add up, run lengths and
/// lengths are as they stand, and an offset of zero is the end of the entry before,
/// any other one less than its number.
pub open spec fn say(vals: Seq<nat>, entries: Seq<Entry>) -> bool {
    let n = entries.len() as int;
    &&& vals.len() == 4 * n + 1
    &&& vals[0] == n
    &&& forall|i: int|
        0 <= i < n ==> {
            &&& (#[trigger] entries[i]).tile_id == vals[1 + i] + (if i == 0 {
                0
            } else {
                entries[i - 1].tile_id as int
            })
            &&& entries[i].run_length == vals[1 + n + i]
            &&& entries[i].length == vals[1 + 2 * n + i]
            &&& if vals[1 + 3 * n + i] == 0 {
                i > 0 && entries[i].offset == entries[i - 1].offset + entries[i - 1].length
            } else {
                entries[i].offset == vals[1 + 3 * n + i] - 1
            }
        }
}

proof fn lemma_varint_moves_on(bytes: Seq<u8>, at: nat, i: nat)
    requires
        i <= 10,
    ensures
        varint_from(bytes, at, i) matches Ok((v, used)) ==> used > i && at + used <= bytes.len(),
    decreases 10 - i,
{
    if i < 10 {
        lemma_varint_moves_on(bytes, at, i + 1);
    }
}

/// A number in front of a row.
spec fn in_front<T>(first: T, row: Seq<T>) -> Seq<T> {
    seq![first] + row
}

proof fn lemma_in_front(bytes: Seq<u8>, v: nat, at: nat, vals: Seq<nat>, places: Seq<nat>)
    requires
        reads_as(bytes, vals, places),
        varint_spec(bytes, at) == Ok::<(nat, nat), ArchiveError>((v, (places[0] - at) as nat)),
        at < places[0] <= bytes.len(),
    ensures
        reads_as(bytes, in_front(v, vals), in_front(at, places)),
{
    let more = in_front(v, vals);
    let stops = in_front(at, places);
    assert forall|j: int| 0 <= j < more.len() implies #[trigger] stands(bytes, more, stops, j) by {
        if j > 0 {
            assert(stands(bytes, vals, places, j - 1));
        }
    }
}

proof fn lemma_joined(
    bytes: Seq<u8>,
    a: Seq<nat>,
    p: Seq<nat>,
    b: Seq<nat>,
    q: Seq<nat>,
)
    requires
        reads_as(bytes, a, p),
        reads_as(bytes, b, q),
        p.last() == q[0],
    ensures
        reads_as(bytes, a + b, p.drop_last() + q),
{
    let vals = a + b;
    let places = p.drop_last() + q;
    assert forall|j: int| 0 <= j < vals.len() implies #[trigger] stands(bytes, vals, places, j) by {
        if j < a.len() {
            assert(stands(bytes, a, p, j));
        } else {
            assert(stands(bytes, b, q, j - a.len()));
        }
    }
}

proof fn lemma_ids_say(bytes: Seq<u8>, at: nat, n: nat, last: nat) -> (r: (Seq<nat>, Seq<nat>))
    requires
        ids_from(bytes, at, n, last) is Ok,
    ensures
        ({
            let (ids, end) = ids_from(bytes, at, n, last)->Ok_0;
            let (vals, places) = r;
            &&& reads_as(bytes, vals, places)
            &&& vals.len() == n && ids.len() == n
            &&& places[0] == at && places.last() == end
            &&& forall|i: int|
                0 <= i < n ==> #[trigger] ids[i] == vals[i] + (if i == 0 {
                    last as int
                } else {
                    ids[i - 1] as int
                })
        }),
    decreases n,
{
    if n == 0 {
        (seq![], seq![at])
    } else {
        let (delta, used) = varint_spec(bytes, at)->Ok_0;
        lemma_varint_moves_on(bytes, at, 0);
        let (vals, places) = lemma_ids_say(bytes, at + used, (n - 1) as nat, last + delta);
        let (rest, end) = ids_from(bytes, at + used, (n - 1) as nat, last + delta)->Ok_0;
        lemma_in_front(bytes, delta, at, vals, places);
        let ids = seq![(last + delta) as u64] + rest;
        let more = in_front(delta, vals);
        assert forall|i: int| 0 <= i < n implies #[trigger] ids[i] == more[i] + (if i == 0 {
            last as int
        } else {
            ids[i - 1] as int
        }) by {
            if i > 0 {
                assert(rest[i - 1] == vals[i - 1] + (if i == 1 {
                    (last + delta) as int
                } else {
                    rest[i - 2] as int
                }));
            }
        }
        (more, in_front(at, places))
    }
}

proof fn lemma_narrow_say(bytes: Seq<u8>, at: nat, n: nat, why: &'static str) -> (r: (
    Seq<nat>,
    Seq<nat>,
))
    requires
        narrow_from(bytes, at, n, why) is Ok,
    ensures
        ({
            let (values, end) = narrow_from(bytes, at, n, why)->Ok_0;
            let (vals, places) = r;
            &&& reads_as(bytes, vals, places)
            &&& vals.len() == n && values.len() == n
            &&& places[0] == at && places.last() == end
            &&& forall|i: int| 0 <= i < n ==> #[trigger] values[i] == vals[i]
        }),
    decreases n,
{
    if n == 0 {
        (seq![], seq![at])
    } else {
        let (value, used) = varint_spec(bytes, at)->Ok_0;
        lemma_varint_moves_on(bytes, at, 0);
        let (vals, places) = lemma_narrow_say(bytes, at + used, (n - 1) as nat, why);
        let (rest, end) = narrow_from(bytes, at + used, (n - 1) as nat, why)->Ok_0;
        lemma_in_front(bytes, value, at, vals, places);
        let values = seq![value as u32] + rest;
        let more = in_front(value, vals);
        assert forall|i: int| 0 <= i < n implies #[trigger] values[i] == more[i] by {
            if i > 0 {
                assert(rest[i - 1] == vals[i - 1]);
            }
        }
        (more, in_front(at, places))
    }
}

proof fn lemma_varint_fits(bytes: Seq<u8>, at: nat, i: nat)
    requires
        i <= 10,
    ensures
        varint_from(bytes, at, i) matches Ok((v, used)) ==> v <= 0x1_0000_0000_0000_0000 - pow2(
            7 * i,
        ) || (i == 9 && v <= pow2(63)),
    decreases 10 - i,
{
    lemma2_to64();
    lemma2_to64_rest();
    if i < 10 && at + i < bytes.len() {
        let b = bytes[(at + i) as int];
        let p = pow2(7 * i);
        let g = (b % 128) as nat;
        lemma_pow2_adds(7 * i, 7);
        assert(7 * i + 7 == 7 * (i + 1));
        assert(g * p <= 127 * p) by (nonlinear_arith)
            requires
                g <= 127,
        ;
        if i < 9 {
            lemma_varint_fits(bytes, at, i + 1);
            if i < 8 {
                lemma_pow2_strictly_increases(7 * (i + 1), 63);
            }
        } else {
            assert(p == pow2(63));
            assert(b <= 1 ==> g * p <= p) by (nonlinear_arith)
                requires
                    b <= 1 ==> g <= 1,
            ;
        }
    }
}

proof fn lemma_offsets_say(
    bytes: Seq<u8>,
    at: nat,
    lengths: Seq<u32>,
    previous: Option<nat>,
) -> (r: (Seq<nat>, Seq<nat>))
    requires
        offsets_from(bytes, at, lengths, previous) is Ok,
    ensures
        ({
            let (offsets, end) = offsets_from(bytes, at, lengths, previous)->Ok_0;
            let (vals, places) = r;
            &&& reads_as(bytes, vals, places)
            &&& vals.len() == lengths.len() && offsets.len() == lengths.len()
            &&& places[0] == at && places.last() == end
            &&& forall|i: int|
                0 <= i < lengths.len() ==> if vals[i] == 0 {
                    if i == 0 {
                        previous == Some(#[trigger] offsets[i] as nat)
                    } else {
                        offsets[i] == offsets[i - 1] + lengths[i - 1]
                    }
                } else {
                    offsets[i] == vals[i] - 1
                }
        }),
    decreases lengths.len(),
{
    if lengths.len() == 0 {
        (seq![], seq![at])
    } else {
        let (raw, used) = varint_spec(bytes, at)->Ok_0;
        lemma_varint_moves_on(bytes, at, 0);
        lemma_varint_fits(bytes, at, 0);
        lemma2_to64();
        let offset = offset_of(raw, previous)->Ok_0;
        let next = Some(offset + lengths[0] as nat);
        let (vals, places) = lemma_offsets_say(bytes, at + used, lengths.drop_first(), next);
        let (rest, end) = offsets_from(bytes, at + used, lengths.drop_first(), next)->Ok_0;
        lemma_in_front(bytes, raw, at, vals, places);
        let offsets = seq![offset as u64] + rest;
        let more = in_front(raw, vals);
        assert forall|i: int| 0 <= i < lengths.len() implies if more[i] == 0 {
            if i == 0 {
                previous == Some(#[trigger] offsets[i] as nat)
            } else {
                offsets[i] == offsets[i - 1] + lengths[i - 1]
            }
        } else {
            offsets[i] == more[i] - 1
        } by {
            if i > 0 {
                assert(more[i] == vals[i - 1]);
                assert(offsets[i] == rest[i - 1]);
                if vals[i - 1] == 0 && i > 1 {
                    assert(rest[i - 1] == rest[i - 2] + lengths.drop_first()[i - 2]);
                }
            }
        }
        (more, in_front(at, places))
    }
}

/// Whatever page is read, whoever wrote it, its entries are what its numbers say:
/// the page is a row of four numbers to an entry behind their count, an entry whose
/// offset is written as zero starts exactly where the one before it ends, and any
/// other starts at one less than its number.
pub proof fn law_entries_are_what_a_page_says(bytes: Seq<u8>)
    requires
        directory_spec(bytes) is Ok,
    ensures
        exists|vals: Seq<nat>, places: Seq<nat>|
            #![trigger reads_as(bytes, vals, places)]
            reads_as(bytes, vals, places) && places[0] == 0 && say(
                vals,
                directory_spec(bytes)->Ok_0,
            ),
{
    let entries = directory_spec(bytes)->Ok_0;
    let (count, used) = varint_spec(bytes, 0)->Ok_0;
    lemma_varint_moves_on(bytes, 0, 0);
    let (ids, a) = ids_from(bytes, used, count, 0)->Ok_0;
    let (i_vals, i_places) = lemma_ids_say(bytes, used, count, 0);
    let (runs, b) = narrow_from(bytes, a, count, "run length exceeds u32")->Ok_0;
    let (r_vals, r_places) = lemma_narrow_say(bytes, a, count, "run length exceeds u32");
    let (lengths, c) = narrow_from(bytes, b, count, "entry length exceeds u32")->Ok_0;
    let (l_vals, l_places) = lemma_narrow_say(bytes, b, count, "entry length exceeds u32");
    let (offsets, _) = offsets_from(bytes, c, lengths, None)->Ok_0;
    let (o_vals, o_places) = lemma_offsets_say(bytes, c, lengths, None);
    lemma_in_front(bytes, count, 0, i_vals, i_places);
    lemma_joined(bytes, in_front(count, i_vals), in_front(0, i_places), r_vals, r_places);
    let two = in_front(count, i_vals) + r_vals;
    let two_places = in_front(0, i_places).drop_last() + r_places;
    lemma_joined(bytes, two, two_places, l_vals, l_places);
    let three = two + l_vals;
    let three_places = two_places.drop_last() + l_places;
    lemma_joined(bytes, three, three_places, o_vals, o_places);
    let vals = three + o_vals;
    let places = three_places.drop_last() + o_places;
    let n = entries.len() as int;
    assert forall|i: int| 0 <= i < n implies {
        &&& (#[trigger] entries[i]).tile_id == vals[1 + i] + (if i == 0 {
            0
        } else {
            entries[i - 1].tile_id as int
        })
        &&& entries[i].run_length == vals[1 + n + i]
        &&& entries[i].length == vals[1 + 2 * n + i]
        &&& if vals[1 + 3 * n + i] == 0 {
            i > 0 && entries[i].offset == entries[i - 1].offset + entries[i - 1].length
        } else {
            entries[i].offset == vals[1 + 3 * n + i] - 1
        }
    } by {
        assert(ids[i] == i_vals[i] + (if i == 0 {
            0
        } else {
            ids[i - 1] as int
        }));
        assert(runs[i] == r_vals[i]);
        assert(lengths[i] == l_vals[i]);
        assert(vals[1 + i] == i_vals[i]);
        assert(vals[1 + n + i] == r_vals[i]);
        assert(vals[1 + 2 * n + i] == l_vals[i]);
        assert(vals[1 + 3 * n + i] == o_vals[i]);
        assert(offsets[i] == entries[i].offset);
    }
    assert(reads_as(bytes, vals, places));
}

// ---------------------------------------------------------------------------
// Search
// ---------------------------------------------------------------------------

/// The last entry whose id does not exceed `tile_id`.
pub open spec fn covering(entries: Seq<Entry>, tile_id: u64) -> Option<Entry>
    decreases entries.len(),
{
    if entries.len() == 0 {
        None
    } else if entries.last().tile_id <= tile_id {
        Some(entries.last())
    } else {
        covering(entries.drop_last(), tile_id)
    }
}

pub proof fn lemma_covering_at(entries: Seq<Entry>, tile_id: u64, n: int)
    requires
        0 <= n <= entries.len(),
        forall|i: int| 0 <= i < n ==> #[trigger] entries[i].tile_id <= tile_id,
        forall|i: int| n <= i < entries.len() ==> #[trigger] entries[i].tile_id > tile_id,
    ensures
        covering(entries, tile_id) == (if n == 0 {
            None
        } else {
            Some(entries[n - 1])
        }),
    decreases entries.len(),
{
    if n < entries.len() {
        let shorter = entries.drop_last();
        assert(forall|i: int| 0 <= i < shorter.len() ==> shorter[i] == entries[i]);
        lemma_covering_at(shorter, tile_id, n);
    }
}

/// The entry that covers `tile_id`: the last one whose id does not exceed it.
/// Whether that entry's run reaches the id is for the caller to check.
pub fn find(entries: &[Entry], tile_id: u64) -> (found: Option<Entry>)
    requires
        sorted(entries@),
    ensures
        found == covering(entries@, tile_id),
{
    let mut low: usize = 0;
    let mut high: usize = entries.len();
    while low < high
        invariant
            low <= high <= entries@.len(),
            sorted(entries@),
            forall|i: int| 0 <= i < low ==> #[trigger] entries@[i].tile_id <= tile_id,
            forall|i: int| high <= i < entries@.len() ==> #[trigger] entries@[i].tile_id > tile_id,
        decreases high - low,
    {
        let mid: usize = low + (high - low) / 2;
        if entries[mid].tile_id <= tile_id {
            low = mid + 1;
        } else {
            high = mid;
        }
    }
    proof {
        lemma_covering_at(entries@, tile_id, low as int);
    }
    if low == 0 {
        None
    } else {
        Some(entries[low - 1])
    }
}

/// What [`covering`] gives is an entry of the page with an id at or below the
/// one searched for, and no entry lies between them.
pub proof fn law_covering_is_nearest(entries: Seq<Entry>, tile_id: u64)
    ensures
        match covering(entries, tile_id) {
            Some(e) => entries.contains(e) && e.tile_id <= tile_id && (sorted(entries) ==> forall|i: int|
                0 <= i < entries.len() && #[trigger] entries[i].tile_id <= tile_id
                    ==> entries[i].tile_id <= e.tile_id),
            None => forall|i: int| 0 <= i < entries.len() ==> #[trigger] entries[i].tile_id > tile_id,
        },
    decreases entries.len(),
{
    if entries.len() > 0 {
        if entries.last().tile_id <= tile_id {
            assert(entries[entries.len() - 1] == entries.last());
        } else {
            let shorter = entries.drop_last();
            law_covering_is_nearest(shorter, tile_id);
            assert(forall|i: int| 0 <= i < shorter.len() ==> shorter[i] == entries[i]);
            match covering(shorter, tile_id) {
                Some(e) => {
                    let k = choose|k: int| 0 <= k < shorter.len() && shorter[k] == e;
                    assert(entries[k] == e);
                    if sorted(entries) {
                        assert(sorted(shorter));
                        assert forall|i: int|
                            0 <= i < entries.len() && #[trigger] entries[i].tile_id
                                <= tile_id implies entries[i].tile_id <= e.tile_id by {
                            assert(i < shorter.len());
                            assert(shorter[i].tile_id <= tile_id);
                        }
                    }
                },
                None => {
                    assert forall|i: int| 0 <= i < entries.len() implies #[trigger] entries[i].tile_id
                        > tile_id by {
                        if i < shorter.len() {
                            assert(shorter[i].tile_id > tile_id);
                        }
                    }
                },
            }
        }
    }
}

proof fn lemma_group_weighs_more(b: u8, i: nat)
    ensures
        varint_group(b, i + 1) == 128 * varint_group(b, i),
{
    vstd::arithmetic::power2::lemma_pow2_adds(7, 7 * i);
    vstd::arithmetic::power2::lemma2_to64();
    assert(7 * (i + 1) == 7 + 7 * i);
    let low = (b % 128) as int;
    let weight = pow2(7 * i) as int;
    assert(low * (128 * weight) == 128 * (low * weight)) by (nonlinear_arith);
}

proof fn lemma_number_begins_one_later(bytes: Seq<u8>, at: nat, i: nat)
    requires
        varint_from(bytes, at, i + 1) is Ok,
    ensures
        varint_from(bytes, at + 1, i) is Ok,
        varint_from(bytes, at, i + 1)->Ok_0.0 == 128 * varint_from(bytes, at + 1, i)->Ok_0.0,
        varint_from(bytes, at, i + 1)->Ok_0.1 == varint_from(bytes, at + 1, i)->Ok_0.1 + 1,
    decreases 10 - i,
{
    let b = bytes[(at + i + 1) as int];
    lemma_group_weighs_more(b, i);
    if b >= 128 {
        lemma_number_begins_one_later(bytes, at, i + 1);
    }
}

proof fn lemma_group_zero(b: u8)
    ensures
        varint_group(b, 0) == b % 128,
{
    vstd::arithmetic::power2::lemma2_to64();
    let low = (b % 128) as int;
    assert(low * 1 == low);
}

/// A number ends with its first byte below 128, and each byte weighs 128 times
/// the one before it, whichever way the number was written.
pub proof fn law_each_byte_weighs_more_than_the_last(bytes: Seq<u8>, at: nat)
    requires
        varint_spec(bytes, at) is Ok,
    ensures
        ({
            let (value, used) = varint_spec(bytes, at)->Ok_0;
            &&& at < bytes.len()
            &&& used == 1 <==> bytes[at as int] < 128
            &&& used == 1 ==> value == bytes[at as int]
            &&& used > 1 ==> varint_spec(bytes, at + 1) is Ok && used == varint_spec(
                bytes,
                at + 1,
            )->Ok_0.1 + 1 && value == bytes[at as int] - 128 + 128 * varint_spec(
                bytes,
                at + 1,
            )->Ok_0.0
        }),
{
    lemma_group_zero(bytes[at as int]);
    if bytes[at as int] >= 128 {
        lemma_number_begins_one_later(bytes, at, 0);
        lemma_used_is_positive(bytes, at, 1);
    }
}

proof fn lemma_used_is_positive(bytes: Seq<u8>, at: nat, i: nat)
    ensures
        varint_from(bytes, at, i) matches Ok((value, used)) ==> used > i,
    decreases 10 - i,
{
    if i < 10 {
        lemma_used_is_positive(bytes, at, i + 1);
    }
}

/// A page holds at most four million entries, and their ids never fall.
pub proof fn law_pages_are_bounded_and_in_order(bytes: Seq<u8>, i: int)
    requires
        directory_spec(bytes) is Ok,
    ensures
        directory_spec(bytes)->Ok_0.len() <= 4_000_000,
        0 < i < directory_spec(bytes)->Ok_0.len() ==> directory_spec(bytes)->Ok_0[i - 1].tile_id
            <= directory_spec(bytes)->Ok_0[i].tile_id,
{
    let entries = directory_spec(bytes)->Ok_0;
    law_entries_are_what_a_page_says(bytes);
    let (vals, places) = choose|vals: Seq<nat>, places: Seq<nat>|
        #![trigger reads_as(bytes, vals, places)]
        reads_as(bytes, vals, places) && places[0] == 0 && say(vals, entries);
    assert(stands(bytes, vals, places, 0));
    if 0 < i < entries.len() {
        assert(entries[i].tile_id == vals[1 + i] + entries[i - 1].tile_id);
    }
}

} // verus!
