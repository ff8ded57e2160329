//! The packed asset store: every asset file is bundled into one data blob,
//! and an index names each asset and gives its size and offset in the blob.
//!
//! The index is a little-endian `u64` count followed by one record per
//! asset: its size and offset as `u64`, then its name as a `u64` byte length
//! and the name's bytes.

use vstd::bytes::{
    lemma_auto_spec_u64_to_from_le_bytes, spec_u64_from_le_bytes, spec_u64_to_le_bytes, u64_from_le_bytes,
    u64_to_le_bytes,
};
use vstd::prelude::*;
use vstd::slice::slice_subrange;
use vstd::string::StringSliceAdditionalSpecFns;

verus! {

/// One asset of the index: its name, its size in bytes and its offset in
/// the data blob.
pub struct AssetEntry {
    pub name: Vec<u8>,
    pub size: u64,
    pub offset: u64,
}

/// An index record as values: (name, size, offset).
pub type AssetRecord = (Seq<u8>, u64, u64);

impl View for AssetEntry {
    type V = AssetRecord;

    open spec fn view(&self) -> AssetRecord {
        (self.name@, self.size, self.offset)
    }
}

/// Why an asset could not be loaded.
#[derive(Clone, Copy, PartialEq, Eq, Structural, Debug)]
pub enum AssetError {
    /// The index is cut short or its lengths run past its end.
    MalformedIndex,
    /// No asset of the index has the name asked for.
    NotFound,
    /// The asset's range runs past the end of the data blob.
    OutOfRange,
}

/// The bytes of one record.
pub open spec fn record_bytes(r: AssetRecord) -> Seq<u8> {
    spec_u64_to_le_bytes(r.1) + spec_u64_to_le_bytes(r.2) + spec_u64_to_le_bytes(r.0.len() as u64) + r.0
}

/// The bytes of a run of records, in order.
pub open spec fn records_bytes(rs: Seq<AssetRecord>) -> Seq<u8>
    decreases rs.len(),
{
    if rs.len() == 0 {
        Seq::empty()
    } else {
        record_bytes(rs[0]) + records_bytes(rs.drop_first())
    }
}

/// The bytes of an index of the records `rs`.
pub open spec fn index_bytes(rs: Seq<AssetRecord>) -> Seq<u8> {
    spec_u64_to_le_bytes(rs.len() as u64) + records_bytes(rs)
}

/// The `u64` stored in `b` at `pos`.
pub open spec fn u64_at(b: Seq<u8>, pos: int) -> u64 {
    spec_u64_from_le_bytes(b.subrange(pos, pos + 8))
}

/// Reads `count` records from the front of `b`; none if `b` ends first.
pub open spec fn parse_records(b: Seq<u8>, count: nat) -> Option<Seq<AssetRecord>>
    decreases count,
{
    if count == 0 {
        Some(Seq::empty())
    } else if b.len() < 24 {
        None
    } else {
        let size = u64_at(b, 0);
        let offset = u64_at(b, 8);
        let len = u64_at(b, 16);
        if b.len() - 24 < len {
            None
        } else {
            let name = b.subrange(24, 24 + len);
            match parse_records(b.subrange(24 + len, b.len() as int), (count - 1) as nat) {
                Some(rest) => Some(seq![(name, size, offset)] + rest),
                None => None,
            }
        }
    }
}

/// The records of the index `b`; none if it is malformed. Bytes after the
/// last record are ignored.
pub open spec fn parse_index(b: Seq<u8>) -> Option<Seq<AssetRecord>> {
    if b.len() < 8 {
        None
    } else {
        parse_records(b.subrange(8, b.len() as int), u64_at(b, 0) as nat)
    }
}

fn read_u64(b: &[u8], pos: usize) -> (r: u64)
    requires
        pos + 8 <= b@.len(),
    ensures
        r == u64_at(b@, pos as int),
{
    let _n = b.len();
    u64_from_le_bytes(slice_subrange(b, pos, pos + 8))
}

fn append_bytes(out: &mut Vec<u8>, b: &[u8])
    ensures
        final(out)@ == old(out)@ + b@,
{
    let mut i: usize = 0;
    while i < b.len()
        invariant
            i <= b@.len(),
            out@ == old(out)@ + b@.subrange(0, i as int),
        decreases b@.len() - i,
    {
        out.push(b[i]);
        i += 1;
        assert(out@ =~= old(out)@ + b@.subrange(0, i as int));
    }
    assert(b@.subrange(0, b@.len() as int) =~= b@);
}

proof fn lemma_records_bytes_push(rs: Seq<AssetRecord>, r: AssetRecord)
    ensures
        records_bytes(rs.push(r)) == records_bytes(rs) + record_bytes(r),
    decreases rs.len(),
{
    if rs.len() == 0 {
        assert(rs.push(r).drop_first() =~= Seq::<AssetRecord>::empty());
        assert(rs.push(r)[0] == r);
        assert(records_bytes(rs.push(r).drop_first()) == Seq::<u8>::empty());
        assert(records_bytes(rs) == Seq::<u8>::empty());
        assert(records_bytes(rs.push(r)) =~= records_bytes(rs) + record_bytes(r));
    } else {
        assert(rs.push(r).drop_first() =~= rs.drop_first().push(r));
        lemma_records_bytes_push(rs.drop_first(), r);
        assert(records_bytes(rs.push(r)) =~= records_bytes(rs) + record_bytes(r));
    }
}

/// The index of `entries`, in their order.
pub fn encode_index(entries: &Vec<AssetEntry>) -> (r: Vec<u8>)
    ensures
        r@ == index_bytes(entries@.map_values(|e: AssetEntry| e@)),
{
    let ghost rs = entries@.map_values(|e: AssetEntry| e@);
    let mut out = u64_to_le_bytes(entries.len() as u64);
    let mut i: usize = 0;
    while i < entries.len()
        invariant
            i <= entries@.len(),
            rs == entries@.map_values(|e: AssetEntry| e@),
            out@ == spec_u64_to_le_bytes(entries@.len() as u64) + records_bytes(rs.take(i as int)),
        decreases entries@.len() - i,
    {
        let e = &entries[i];
        let ghost before = out@;
        append_bytes(&mut out, u64_to_le_bytes(e.size).as_slice());
        append_bytes(&mut out, u64_to_le_bytes(e.offset).as_slice());
        append_bytes(&mut out, u64_to_le_bytes(e.name.len() as u64).as_slice());
        append_bytes(&mut out, e.name.as_slice());
        proof {
            assert(rs.take(i + 1) =~= rs.take(i as int).push(rs[i as int]));
            lemma_records_bytes_push(rs.take(i as int), rs[i as int]);
            assert(out@ =~= spec_u64_to_le_bytes(entries@.len() as u64) + records_bytes(rs.take(i + 1)));
        }
        i += 1;
    }
    assert(rs.take(entries@.len() as int) =~= rs);
    out
}

/// The records of the index `b`, read as `parse_index` reads them; none if
/// the index is malformed.
pub fn parse_asset_index(b: &[u8]) -> (r: Option<Vec<AssetEntry>>)
    ensures
        match r {
            Some(es) => parse_index(b@) == Some(es@.map_values(|e: AssetEntry| e@)),
            None => parse_index(b@) is None,
        },
{
    let n = b.len();
    if n < 8 {
        return None;
    }
    let mut remaining = read_u64(b, 0);
    let mut pos: usize = 8;
    let mut acc: Vec<AssetEntry> = Vec::new();
    assert(Seq::<AssetRecord>::empty() + Seq::<AssetRecord>::empty() =~= Seq::<AssetRecord>::empty());
    while remaining > 0
        invariant
            n == b@.len(),
            8 <= pos <= n,
            parse_index(b@) == (match parse_records(b@.subrange(pos as int, n as int), remaining as nat) {
                Some(rest) => Some(acc@.map_values(|e: AssetEntry| e@) + rest),
                None => None,
            }),
        decreases remaining,
    {
        let ghost t = b@.subrange(pos as int, n as int);
        if n - pos < 24 {
            return None;
        }
        let size = read_u64(b, pos);
        let offset = read_u64(b, pos + 8);
        let len = read_u64(b, pos + 16);
        assert(t.subrange(0, 8) =~= b@.subrange(pos as int, pos + 8));
        assert(t.subrange(8, 16) =~= b@.subrange(pos + 8, pos + 16));
        assert(t.subrange(16, 24) =~= b@.subrange(pos + 16, pos + 24));
        if ((n - pos - 24) as u64) < len {
            return None;
        }
        let start = pos + 24;
        let end = start + len as usize;
        let mut name: Vec<u8> = Vec::new();
        append_bytes(&mut name, slice_subrange(b, start, end));
        let ghost before = acc@.map_values(|e: AssetEntry| e@);
        acc.push(AssetEntry { name, size, offset });
        proof {
            assert(name@ =~= t.subrange(24, 24 + len));
            assert(t.subrange(24 + len, t.len() as int) =~= b@.subrange(end as int, n as int));
            assert(acc@.map_values(|e: AssetEntry| e@) =~= before.push((name@, size, offset)));
            match parse_records(b@.subrange(end as int, n as int), (remaining - 1) as nat) {
                Some(rest) => {
                    assert(before + (seq![(name@, size, offset)] + rest) =~= before.push(
                        (name@, size, offset),
                    ) + rest);
                },
                None => {},
            }
        }
        pos = end;
        remaining = remaining - 1;
    }
    proof {
        assert(acc@.map_values(|e: AssetEntry| e@) + Seq::<AssetRecord>::empty() =~= acc@.map_values(
            |e: AssetEntry| e@,
        ));
    }
    Some(acc)
}

/// Whether record `k` is the first of `rs` named `name`.
pub open spec fn first_named(rs: Seq<AssetRecord>, name: Seq<u8>, k: int) -> bool {
    &&& 0 <= k < rs.len()
    &&& rs[k].0 == name
    &&& forall|j: int| 0 <= j < k ==> (#[trigger] rs[j]).0 != name
}

/// The first record of `rs` named `name`, if any.
pub open spec fn lookup(rs: Seq<AssetRecord>, name: Seq<u8>) -> Option<AssetRecord> {
    if exists|k: int| first_named(rs, name, k) {
        Some(rs[choose|k: int| first_named(rs, name, k)])
    } else {
        None
    }
}

/// What loading the asset `name` from the index `index` and the data blob
/// `data` gives: the asset's bytes, or why there are none.
pub open spec fn load_spec(index: Seq<u8>, data: Seq<u8>, name: Seq<u8>) -> Result<Seq<u8>, AssetError> {
    match parse_index(index) {
        None => Err(AssetError::MalformedIndex),
        Some(rs) => match lookup(rs, name) {
            None => Err(AssetError::NotFound),
            Some((_, size, offset)) => if offset + size <= data.len() {
                Ok(data.subrange(offset as int, offset + size))
            } else {
                Err(AssetError::OutOfRange)
            },
        },
    }
}

fn bytes_equal(a: &[u8], b: &[u8]) -> (r: bool)
    ensures
        r == (a@ == b@),
{
    if a.len() != b.len() {
        return false;
    }
    let mut i: usize = 0;
    while i < a.len()
        invariant
            a@.len() == b@.len(),
            i <= a@.len(),
            forall|j: int| 0 <= j < i ==> a@[j] == b@[j],
        decreases a@.len() - i,
    {
        if a[i] != b[i] {
            return false;
        }
        i += 1;
    }
    assert(a@ =~= b@);
    true
}

/// The bytes of the asset named `asset_path` (its bytes compared exactly
/// with the names in the index), read from the index `index` and the data
/// blob `data`. When several records share the name, the first counts.
pub fn get_asset(index: &[u8], data: &[u8], asset_path: &str) -> (r: Result<Vec<u8>, AssetError>)
    ensures
        match r {
            Ok(v) => load_spec(index@, data@, asset_path.spec_bytes()) == Ok::<Seq<u8>, AssetError>(v@),
            Err(e) => load_spec(index@, data@, asset_path.spec_bytes()) == Err::<Seq<u8>, AssetError>(e),
        },
{
    let name = asset_path.as_bytes();
    let entries = match parse_asset_index(index) {
        Some(es) => es,
        None => return Err(AssetError::MalformedIndex),
    };
    let ghost rs = entries@.map_values(|e: AssetEntry| e@);
    let mut i: usize = 0;
    while i < entries.len()
        invariant
            i <= entries@.len(),
            rs == entries@.map_values(|e: AssetEntry| e@),
            parse_index(index@) == Some(rs),
            name@ == asset_path.spec_bytes(),
            forall|j: int| 0 <= j < i ==> (#[trigger] rs[j]).0 != name@,
        decreases entries@.len() - i,
    {
        let e = &entries[i];
        if bytes_equal(e.name.as_slice(), name) {
            proof {
                assert(first_named(rs, name@, i as int));
                assert forall|k: int| first_named(rs, name@, k) implies k == i by {
                    if k < i {
                        assert(rs[k].0 != name@);
                    } else if k > i {
                        assert(rs[i as int].0 != name@);
                    }
                }
                let k = choose|k: int| first_named(rs, name@, k);
                assert(k == i);
                assert(rs[i as int] == e@);
                assert(lookup(rs, name@) == Some(e@));
                assert(parse_index(index@) == Some(rs));
            }
            if e.offset as u128 + e.size as u128 <= data.len() as u128 {
                let out = slice_subrange(data, e.offset as usize, (e.offset + e.size) as usize);
                let mut v: Vec<u8> = Vec::new();
                append_bytes(&mut v, out);
                assert(v@ =~= data@.subrange(e.offset as int, e.offset + e.size));
                return Ok(v);
            } else {
                return Err(AssetError::OutOfRange);
            }
        }
        i += 1;
    }
    assert forall|k: int| !first_named(rs, name@, k) by {
        if 0 <= k < rs.len() {
            assert(rs[k].0 != name@);
        }
    }
    Err(AssetError::NotFound)
}

/// A file to pack: its name and its contents.
pub struct AssetFile {
    pub name: Vec<u8>,
    pub contents: Vec<u8>,
}

/// A file to pack as values: (name, contents).
pub type FileRecord = (Seq<u8>, Seq<u8>);

impl View for AssetFile {
    type V = FileRecord;

    open spec fn view(&self) -> FileRecord {
        (self.name@, self.contents@)
    }
}

/// The contents of `fs` laid end to end: the data blob.
pub open spec fn blob_of(fs: Seq<FileRecord>) -> Seq<u8>
    decreases fs.len(),
{
    if fs.len() == 0 {
        Seq::empty()
    } else {
        blob_of(fs.drop_last()) + fs.last().1
    }
}

/// The index records of `fs` packed in order: each file's name, its size,
/// and its offset, which is the total size of the files before it.
pub open spec fn packed_records(fs: Seq<FileRecord>) -> Seq<AssetRecord> {
    Seq::new(fs.len(), |k: int| (fs[k].0, fs[k].1.len() as u64, blob_of(fs.take(k)).len() as u64))
}

/// Packs `files`: returns the index and the data blob, the files' contents
/// laid end to end in order.
pub fn pack_assets(files: &Vec<AssetFile>) -> (r: (Vec<u8>, Vec<u8>))
    ensures
        r.1@ == blob_of(files@.map_values(|f: AssetFile| f@)),
        r.0@ == index_bytes(packed_records(files@.map_values(|f: AssetFile| f@))),
{
    let ghost fs = files@.map_values(|f: AssetFile| f@);
    let mut data: Vec<u8> = Vec::new();
    let mut entries: Vec<AssetEntry> = Vec::new();
    let mut i: usize = 0;
    while i < files.len()
        invariant
            i <= files@.len(),
            fs == files@.map_values(|f: AssetFile| f@),
            data@ == blob_of(fs.take(i as int)),
            entries@.map_values(|e: AssetEntry| e@) == packed_records(fs).take(i as int),
        decreases files@.len() - i,
    {
        let f = &files[i];
        let offset = data.len() as u64;
        let mut name: Vec<u8> = Vec::new();
        append_bytes(&mut name, f.name.as_slice());
        assert(name@ =~= fs[i as int].0);
        assert(f.contents@ == fs[i as int].1);
        let ghost before = entries@.map_values(|e: AssetEntry| e@);
        entries.push(AssetEntry { name, size: f.contents.len() as u64, offset });
        append_bytes(&mut data, f.contents.as_slice());
        proof {
            assert(fs.take(i + 1).drop_last() =~= fs.take(i as int));
            assert(fs.take(i + 1).last() == fs[i as int]);
            assert(packed_records(fs)[i as int] == (fs[i as int].0, fs[i as int].1.len() as u64, offset));
            assert(entries@.map_values(|e: AssetEntry| e@) =~= before.push(packed_records(fs)[i as int]));
            assert(entries@.map_values(|e: AssetEntry| e@) =~= packed_records(fs).take(i + 1));
        }
        i += 1;
    }
    assert(fs.take(files@.len() as int) =~= fs);
    assert(packed_records(fs).take(files@.len() as int) =~= packed_records(fs));
    (encode_index(&entries), data)
}

proof fn lemma_parse_records_round_trip(rs: Seq<AssetRecord>, rest: Seq<u8>)
    requires
        forall|k: int| 0 <= k < rs.len() ==> (#[trigger] rs[k]).0.len() <= u64::MAX,
    ensures
        parse_records(records_bytes(rs) + rest, rs.len()) == Some(rs),
    decreases rs.len(),
{
    lemma_auto_spec_u64_to_from_le_bytes();
    if rs.len() > 0 {
        let r = rs[0];
        let tail = rs.drop_first();
        assert forall|k: int| 0 <= k < tail.len() implies (#[trigger] tail[k]).0.len() <= u64::MAX by {
            assert(tail[k] == rs[k + 1]);
        }
        lemma_parse_records_round_trip(tail, rest);
        let b = records_bytes(rs) + rest;
        let len = r.0.len() as u64;
        assert(b.subrange(0, 8) =~= spec_u64_to_le_bytes(r.1));
        assert(b.subrange(8, 16) =~= spec_u64_to_le_bytes(r.2));
        assert(b.subrange(16, 24) =~= spec_u64_to_le_bytes(len));
        assert(b.subrange(24, 24 + len) =~= r.0);
        assert(b.subrange(24 + len, b.len() as int) =~= records_bytes(tail) + rest);
        assert(seq![r] + tail =~= rs);
    } else {
        assert(records_bytes(rs) + rest =~= rest);
    }
}

/// Index round trip: an index written for records `rs`, followed by any
/// bytes at all, reads back as exactly `rs`.
pub proof fn lemma_index_round_trip(rs: Seq<AssetRecord>, rest: Seq<u8>)
    requires
        rs.len() <= u64::MAX,
        forall|k: int| 0 <= k < rs.len() ==> (#[trigger] rs[k]).0.len() <= u64::MAX,
    ensures
        parse_index(index_bytes(rs) + rest) == Some(rs),
{
    lemma_auto_spec_u64_to_from_le_bytes();
    let b = index_bytes(rs) + rest;
    assert(b.subrange(0, 8) =~= spec_u64_to_le_bytes(rs.len() as u64));
    assert(b.subrange(8, b.len() as int) =~= records_bytes(rs) + rest);
    lemma_parse_records_round_trip(rs, rest);
}

proof fn lemma_blob_prefix(fs: Seq<FileRecord>, j: int)
    requires
        0 <= j <= fs.len(),
    ensures
        blob_of(fs.take(j)) == blob_of(fs).take(blob_of(fs.take(j)).len() as int),
        blob_of(fs.take(j)).len() <= blob_of(fs).len(),
    decreases fs.len(),
{
    if j == fs.len() {
        assert(fs.take(j) =~= fs);
        assert(blob_of(fs).take(blob_of(fs).len() as int) =~= blob_of(fs));
    } else {
        assert(fs.drop_last().take(j) =~= fs.take(j));
        lemma_blob_prefix(fs.drop_last(), j);
        assert(blob_of(fs.take(j)) =~= blob_of(fs).take(blob_of(fs.take(j)).len() as int));
    }
}

/// Packing round trip: packing `fs` and then loading the name of file `k`,
/// the first file of that name, gives back that file's contents.
pub proof fn lemma_pack_round_trip(fs: Seq<FileRecord>, rest: Seq<u8>, k: int)
    requires
        fs.len() <= u64::MAX,
        blob_of(fs).len() <= u64::MAX,
        forall|j: int| 0 <= j < fs.len() ==> (#[trigger] fs[j]).0.len() <= u64::MAX,
        0 <= k < fs.len(),
        forall|j: int| 0 <= j < k ==> (#[trigger] fs[j]).0 != fs[k].0,
    ensures
        load_spec(index_bytes(packed_records(fs)) + rest, blob_of(fs), fs[k].0) == Ok::<
            Seq<u8>,
            AssetError,
        >(fs[k].1),
{
    let rs = packed_records(fs);
    assert forall|j: int| 0 <= j < rs.len() implies (#[trigger] rs[j]).0.len() <= u64::MAX by {
        assert(rs[j].0 == fs[j].0);
    }
    lemma_index_round_trip(rs, rest);
    assert(first_named(rs, fs[k].0, k));
    assert forall|m: int| first_named(rs, fs[k].0, m) implies m == k by {
        if m < k {
            assert(rs[m].0 == fs[m].0);
        } else if m > k {
            assert(rs[k].0 == fs[k].0);
        }
    }
    let m = choose|m: int| first_named(rs, fs[k].0, m);
    assert(m == k);
    lemma_blob_prefix(fs, k);
    lemma_blob_prefix(fs, k + 1);
    assert(fs.take(k + 1).drop_last() =~= fs.take(k));
    assert(fs.take(k + 1).last() == fs[k]);
    let before = blob_of(fs.take(k));
    let upto = blob_of(fs.take(k + 1));
    assert(upto == before + fs[k].1);
    assert(blob_of(fs).subrange(before.len() as int, (before.len() + fs[k].1.len()) as int) =~= fs[k].1) by {
        assert forall|x: int| 0 <= x < fs[k].1.len() implies blob_of(fs)[before.len() + x] == fs[k].1[x] by {
            assert(upto[before.len() + x] == fs[k].1[x]);
            assert(blob_of(fs).take(upto.len() as int)[before.len() + x] == blob_of(fs)[before.len() + x]);
        }
    }
}

} // verus!
