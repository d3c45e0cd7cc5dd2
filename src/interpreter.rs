//! A host-side model of how the generated shader walks the scene ROM: the
//! same cursor moves, the same ids, the same words, so that what the writer
//! lays out can be compared with what the shader reads back.
use vstd::prelude::*;
use crate::scene::{InstanceLayout, record_words, scene_words, fill, zeros};

verus! {

/// The scan loop of the generated shader runs at most this many times.
pub const MAX_SCAN_STEPS: usize = 256;

/// Whether `id` names a method of a table whose arities are `ar` (ids start at 1).
pub open spec fn known(ar: Seq<usize>, id: u32) -> bool {
    1 <= id && id <= ar.len()
}

/// Words of parameter data that method `id` reads.
pub open spec fn arity(ar: Seq<usize>, id: u32) -> int {
    ar[id - 1] as int
}

/// The word at `p`; 0 (the end marker) past the end of the ROM.
pub open spec fn word_at(r: Seq<u32>, p: int) -> u32 {
    if 0 <= p && p < r.len() {
        r[p]
    } else {
        0
    }
}

/// Index of the sdf id of the record at `p`: past the bounding id, and past
/// its data only where the id names a bounding test.
pub open spec fn bound_end(r: Seq<u32>, bar: Seq<usize>, p: int) -> int {
    if known(bar, word_at(r, p)) {
        p + 1 + arity(bar, word_at(r, p))
    } else {
        p + 1
    }
}

/// Index of the `tex_len` word of the record at `p`.
pub open spec fn tex_len_at(r: Seq<u32>, bar: Seq<usize>, sar: Seq<usize>, p: int) -> int {
    let q = bound_end(r, bar, p);
    q + 1 + arity(sar, word_at(r, q))
}

/// Where the next record starts: past the color block, whose length the
/// `tex_len` word gives, whatever the bounding test decided.
pub open spec fn record_end(r: Seq<u32>, bar: Seq<usize>, sar: Seq<usize>, p: int) -> int {
    let t = tex_len_at(r, bar, sar, p);
    t + 1 + word_at(r, t)
}

/// Whether a whole record with a known sdf id starts at `p`. A zero (or
/// unknown) sdf id ends the scan, and so does a record cut off by the end
/// of the ROM.
pub open spec fn record_ok(r: Seq<u32>, bar: Seq<usize>, sar: Seq<usize>, p: int) -> bool {
    &&& 0 <= p < r.len()
    &&& bound_end(r, bar, p) < r.len()
    &&& known(sar, r[bound_end(r, bar, p)])
    &&& tex_len_at(r, bar, sar, p) < r.len()
    &&& record_end(r, bar, sar, p) <= r.len()
}

/// A record as the shader reads it back, and where its color block's id lies.
pub struct ScannedRecord {
    pub layout: InstanceLayout,
    pub tex_pointer: int,
}

/// The color id at `tp` and, where it names a color function whose data lies
/// inside the ROM, that data.
pub open spec fn tex_data_at(r: Seq<u32>, tar: Seq<usize>, tp: int) -> Seq<u32> {
    let tid = word_at(r, tp);
    if known(tar, tid) && tp + 1 + arity(tar, tid) <= r.len() {
        r.subrange(tp + 1, tp + 1 + arity(tar, tid))
    } else {
        Seq::empty()
    }
}

pub open spec fn decode_record(
    r: Seq<u32>,
    bar: Seq<usize>,
    sar: Seq<usize>,
    tar: Seq<usize>,
    p: int,
) -> ScannedRecord {
    let q = bound_end(r, bar, p);
    let t = tex_len_at(r, bar, sar, p);
    ScannedRecord {
        layout: InstanceLayout {
            bound_id: word_at(r, p),
            bound_data: if known(bar, word_at(r, p)) {
                r.subrange(p + 1, q)
            } else {
                Seq::empty()
            },
            sdf_id: word_at(r, q),
            sdf_data: r.subrange(q + 1, t),
            tex_id: word_at(r, t + 1),
            tex_data: tex_data_at(r, tar, t + 1),
        },
        tex_pointer: t + 1,
    }
}

/// The records that at most `fuel` steps of the scan loop visit from `p` on.
pub open spec fn scan(
    r: Seq<u32>,
    bar: Seq<usize>,
    sar: Seq<usize>,
    tar: Seq<usize>,
    p: int,
    fuel: nat,
) -> Seq<ScannedRecord>
    decreases fuel,
{
    if fuel == 0 || !record_ok(r, bar, sar, p) {
        Seq::empty()
    } else {
        seq![decode_record(r, bar, sar, tar, p)] + scan(
            r,
            bar,
            sar,
            tar,
            record_end(r, bar, sar, p),
            (fuel - 1) as nat,
        )
    }
}

/// An instance whose ids are registered and whose data has the arity of its
/// methods; an absent bounding test or color function comes with no data.
pub open spec fn canonical(l: InstanceLayout, bar: Seq<usize>, sar: Seq<usize>, tar: Seq<usize>) -> bool {
    &&& (l.bound_id == 0 && l.bound_data.len() == 0) || (known(bar, l.bound_id)
        && l.bound_data.len() == arity(bar, l.bound_id))
    &&& known(sar, l.sdf_id) && l.sdf_data.len() == arity(sar, l.sdf_id)
    &&& (l.tex_id == 0 && l.tex_data.len() == 0) || (known(tar, l.tex_id)
        && l.tex_data.len() == arity(tar, l.tex_id))
    &&& l.tex_data.len() < u32::MAX
}

/// A record written by the serializer reads back as the same instance, and
/// the cursor then stands at `p` plus the bounding part (one word, or one
/// plus the bounding arity), one sdf id, the sdf arity, one `tex_len` word and
/// `tex_len` more words: exactly the end of the record.
pub proof fn lemma_decode_record(
    r: Seq<u32>,
    bar: Seq<usize>,
    sar: Seq<usize>,
    tar: Seq<usize>,
    l: InstanceLayout,
    p: int,
)
    requires
        canonical(l, bar, sar, tar),
        0 <= p,
        p + record_words(l).len() <= r.len(),
        r.subrange(p, p + record_words(l).len()) == record_words(l),
    ensures
        record_ok(r, bar, sar, p),
        decode_record(r, bar, sar, tar, p).layout == l,
        decode_record(r, bar, sar, tar, p).tex_pointer == tex_len_at(r, bar, sar, p) + 1,
        record_end(r, bar, sar, p) == p + record_words(l).len(),
        record_end(r, bar, sar, p) == p + crate::scene::bound_words(l).len() + 1 + l.sdf_data.len()
            + 1 + word_at(r, tex_len_at(r, bar, sar, p)),
{
    let w = record_words(l);
    let bw = crate::scene::bound_words(l);
    let sw = crate::scene::sdf_words(l);
    let tw = crate::scene::tex_words(l);
    assert forall|j: int| 0 <= j < w.len() implies r[p + j] == w[j] by {
        assert(r.subrange(p, p + w.len())[j] == r[p + j]);
    }
    assert(w[0] == l.bound_id);
    let q = p + bw.len();
    assert(bound_end(r, bar, p) == q);
    assert(w[bw.len() as int] == l.sdf_id);
    assert(r[q] == l.sdf_id);
    let t = q + 1 + l.sdf_data.len();
    assert(tex_len_at(r, bar, sar, p) == t);
    assert(w[(bw.len() + sw.len()) as int] == tw[0]);
    assert(r[t] == tw[0]);
    assert(w.len() == bw.len() + sw.len() + tw.len());
    let d = decode_record(r, bar, sar, tar, p);
    if l.bound_id != 0 {
        assert(d.layout.bound_data =~= l.bound_data) by {
            assert forall|j: int| 0 <= j < l.bound_data.len() implies d.layout.bound_data[j]
                == l.bound_data[j] by {
                assert(w[1 + j] == bw[1 + j]);
            }
        }
    }
    assert(d.layout.sdf_data =~= l.sdf_data) by {
        assert forall|j: int| 0 <= j < l.sdf_data.len() implies d.layout.sdf_data[j]
            == l.sdf_data[j] by {
            assert(w[bw.len() + 1 + j] == sw[1 + j]);
        }
    }
    assert(w[(bw.len() + sw.len() + 1) as int] == tw[1]);
    if l.tex_id != 0 {
        assert(d.layout.tex_data =~= l.tex_data) by {
            assert forall|j: int| 0 <= j < l.tex_data.len() implies d.layout.tex_data[j]
                == l.tex_data[j] by {
                assert(w[bw.len() + sw.len() + 2 + j] == tw[2 + j]);
            }
        }
    }
    if l.bound_id == 0 {
        assert(d.layout.bound_data =~= l.bound_data);
    }
    if l.tex_id == 0 {
        assert(d.layout.tex_data =~= l.tex_data);
    }
    assert(d.layout.bound_id == l.bound_id);
    assert(d.layout.sdf_id == l.sdf_id);
    assert(d.layout.tex_id == l.tex_id);
    assert(d.layout == l);
}

/// From a cursor past which every word is zero the scan finds no record:
/// the zero-filled tail of the ROM ends the scene.
pub proof fn lemma_zero_tail_ends_scan(
    r: Seq<u32>,
    bar: Seq<usize>,
    sar: Seq<usize>,
    tar: Seq<usize>,
    p: int,
    fuel: nat,
)
    requires
        0 <= p,
        forall|j: int| p <= j < r.len() ==> r[j] == 0,
    ensures
        scan(r, bar, sar, tar, p, fuel) == Seq::<ScannedRecord>::empty(),
{
    if p < r.len() {
        assert(word_at(r, p) == 0);
        if p + 1 < r.len() {
            assert(r[p + 1] == 0);
        }
    }
    assert(!record_ok(r, bar, sar, p));
}

/// The records of the first `k` instances are a prefix of the records of the first `m`.
proof fn lemma_scene_prefix(ls: Seq<InstanceLayout>, k: int, m: int)
    requires
        0 <= k <= m <= ls.len(),
    ensures
        scene_words(ls.subrange(0, k)).len() <= scene_words(ls.subrange(0, m)).len(),
        scene_words(ls.subrange(0, m)).subrange(0, scene_words(ls.subrange(0, k)).len() as int)
            == scene_words(ls.subrange(0, k)),
    decreases m - k,
{
    if k < m {
        lemma_scene_prefix(ls, k, m - 1);
        assert(ls.subrange(0, m).drop_last() =~= ls.subrange(0, m - 1));
        let a = scene_words(ls.subrange(0, m - 1));
        let b = record_words(ls[m - 1]);
        assert((a + b).subrange(0, scene_words(ls.subrange(0, k)).len() as int) =~= a.subrange(
            0,
            scene_words(ls.subrange(0, k)).len() as int,
        ));
    } else {
        assert(scene_words(ls.subrange(0, m)).subrange(
            0,
            scene_words(ls.subrange(0, k)).len() as int,
        ) =~= scene_words(ls.subrange(0, k)));
    }
}

proof fn lemma_scan_from(
    r: Seq<u32>,
    bar: Seq<usize>,
    sar: Seq<usize>,
    tar: Seq<usize>,
    ls: Seq<InstanceLayout>,
    k: int,
    fuel: nat,
)
    requires
        forall|i: int| 0 <= i < ls.len() ==> canonical(#[trigger] ls[i], bar, sar, tar),
        scene_words(ls).len() <= r.len(),
        r.subrange(0, scene_words(ls).len() as int) == scene_words(ls),
        forall|j: int| scene_words(ls).len() <= j < r.len() ==> r[j] == 0,
        0 <= k <= ls.len(),
        ls.len() - k <= fuel,
    ensures
        scan(r, bar, sar, tar, scene_words(ls.subrange(0, k)).len() as int, fuel).len() == ls.len()
            - k,
        forall|i: int|
            0 <= i < ls.len() - k ==> (#[trigger] scan(
                r,
                bar,
                sar,
                tar,
                scene_words(ls.subrange(0, k)).len() as int,
                fuel,
            )[i]).layout == ls[k + i],
    decreases ls.len() - k,
{
    let p = scene_words(ls.subrange(0, k)).len() as int;
    assert(ls.subrange(0, ls.len() as int) =~= ls);
    if k == ls.len() {
        lemma_zero_tail_ends_scan(r, bar, sar, tar, p, fuel);
    } else {
        let l = ls[k];
        assert(ls.subrange(0, k + 1).drop_last() =~= ls.subrange(0, k));
        let pre = scene_words(ls.subrange(0, k + 1));
        assert(pre == scene_words(ls.subrange(0, k)) + record_words(l));
        lemma_scene_prefix(ls, k + 1, ls.len() as int);
        assert(pre.len() <= scene_words(ls).len());
        assert(r.subrange(p, p + record_words(l).len()) =~= record_words(l)) by {
            assert forall|j: int| 0 <= j < record_words(l).len() implies r[p + j]
                == record_words(l)[j] by {
                assert(r.subrange(0, scene_words(ls).len() as int)[p + j] == r[p + j]);
                assert(scene_words(ls).subrange(0, pre.len() as int)[p + j] == pre[p + j]);
            }
        }
        lemma_decode_record(r, bar, sar, tar, l, p);
        lemma_scan_from(r, bar, sar, tar, ls, k + 1, (fuel - 1) as nat);
        let rest = scan(r, bar, sar, tar, record_end(r, bar, sar, p), (fuel - 1) as nat);
        assert(scan(r, bar, sar, tar, p, fuel) == seq![decode_record(r, bar, sar, tar, p)]
            + rest);
        assert forall|i: int| 0 <= i < ls.len() - k implies (#[trigger] scan(
            r,
            bar,
            sar,
            tar,
            p,
            fuel,
        )[i]).layout == ls[k + i] by {
            if i > 0 {
                assert(scan(r, bar, sar, tar, p, fuel)[i] == rest[i - 1]);
            }
        }
    }
}

/// Serializing instances with registered signatures into a zeroed ROM and
/// scanning it from the start gives back the same instances, in order, each
/// field word for word (a float travels as its bit pattern, so bit for bit):
/// as long as all the records fit and the scan loop runs often enough.
pub proof fn lemma_round_trip(
    ls: Seq<InstanceLayout>,
    capacity: nat,
    bar: Seq<usize>,
    sar: Seq<usize>,
    tar: Seq<usize>,
    fuel: nat,
)
    requires
        forall|i: int| 0 <= i < ls.len() ==> canonical(#[trigger] ls[i], bar, sar, tar),
        scene_words(ls).len() <= capacity,
        ls.len() <= fuel,
    ensures
        ({
            let rom = fill(zeros(capacity), 0, scene_words(ls));
            &&& scan(rom, bar, sar, tar, 0, fuel).len() == ls.len()
            &&& forall|i: int|
                0 <= i < ls.len() ==> (#[trigger] scan(rom, bar, sar, tar, 0, fuel)[i]).layout
                    == ls[i]
        }),
{
    let sw = scene_words(ls);
    let rom = fill(zeros(capacity), 0, sw);
    assert(rom.subrange(0, sw.len() as int) =~= sw);
    assert(ls.subrange(0, 0) =~= Seq::<InstanceLayout>::empty());
    assert(scene_words(ls.subrange(0, 0)).len() == 0);
    lemma_scan_from(rom, bar, sar, tar, ls, 0, fuel);
}


/// One record as the scan reads it, with the index of its color id.
pub struct DecodedRecord {
    pub bound_id: u32,
    pub bound_data: Vec<u32>,
    pub sdf_id: u32,
    pub sdf_data: Vec<u32>,
    pub tex_pointer: usize,
    pub tex_id: u32,
    pub tex_data: Vec<u32>,
}

impl DecodedRecord {
    pub open spec fn view_record(&self) -> ScannedRecord {
        ScannedRecord {
            layout: InstanceLayout {
                bound_id: self.bound_id,
                bound_data: self.bound_data@,
                sdf_id: self.sdf_id,
                sdf_data: self.sdf_data@,
                tex_id: self.tex_id,
                tex_data: self.tex_data@,
            },
            tex_pointer: self.tex_pointer as int,
        }
    }
}

/// The words of `r` from `from` up to `to`.
fn copy_range(r: &Vec<u32>, from: usize, to: usize) -> (out: Vec<u32>)
    requires
        from <= to <= r@.len(),
    ensures
        out@ == r@.subrange(from as int, to as int),
{
    let mut out: Vec<u32> = Vec::new();
    let mut k: usize = from;
    while k < to
        invariant
            from <= k <= to,
            to <= r@.len(),
            out@ == r@.subrange(from as int, k as int),
        decreases to - k,
    {
        out.push(r[k]);
        k = k + 1;
        assert(out@ =~= r@.subrange(from as int, k as int));
    }
    out
}

/// Whether `id` names an entry of `ar`, as the generated switch does.
fn is_known(ar: &Vec<usize>, id: u32) -> (b: bool)
    ensures
        b == known(ar@, id),
{
    1 <= id && (id as usize) <= ar.len()
}

/// The color id at `tp` and its data, as the shading step reads them.
pub fn decode_tex(rom: &Vec<u32>, tar: &Vec<usize>, tp: usize) -> (r: (u32, Vec<u32>))
    ensures
        r.0 == word_at(rom@, tp as int),
        r.1@ == tex_data_at(rom@, tar@, tp as int),
{
    let n = rom.len();
    if tp >= n {
        return (0, Vec::new());
    }
    let tid = rom[tp];
    if is_known(tar, tid) {
        let a = tar[(tid - 1) as usize];
        if a <= n - tp - 1 {
            let data = copy_range(rom, tp + 1, tp + 1 + a);
            return (tid, data);
        }
    }
    (tid, Vec::new())
}

/// The record at `p` and the start of the next, or `None` where the scan stops.
pub fn decode_record_at(
    rom: &Vec<u32>,
    bar: &Vec<usize>,
    sar: &Vec<usize>,
    tar: &Vec<usize>,
    p: usize,
) -> (r: Option<(DecodedRecord, usize)>)
    ensures
        match r {
            None => !record_ok(rom@, bar@, sar@, p as int),
            Some((d, e)) => {
                &&& record_ok(rom@, bar@, sar@, p as int)
                &&& d.view_record() == decode_record(rom@, bar@, sar@, tar@, p as int)
                &&& e == record_end(rom@, bar@, sar@, p as int)
            },
        },
{
    let n = rom.len();
    if p >= n {
        return None;
    }
    let bound_id = rom[p];
    let mut q: usize = p + 1;
    let mut bound_data: Vec<u32> = Vec::new();
    if is_known(bar, bound_id) {
        let a = bar[(bound_id - 1) as usize];
        if a >= n - p - 1 {
            return None;
        }
        q = p + 1 + a;
        bound_data = copy_range(rom, p + 1, q);
    }
    assert(q == bound_end(rom@, bar@, p as int));
    if q >= n {
        return None;
    }
    let sdf_id = rom[q];
    if !is_known(sar, sdf_id) {
        return None;
    }
    let a = sar[(sdf_id - 1) as usize];
    if a >= n - q - 1 {
        return None;
    }
    let t = q + 1 + a;
    let sdf_data = copy_range(rom, q + 1, t);
    let tex_len = rom[t];
    if tex_len as usize > n - t - 1 {
        return None;
    }
    let e = t + 1 + tex_len as usize;
    let (tex_id, tex_data) = decode_tex(rom, tar, t + 1);
    let d = DecodedRecord {
        bound_id,
        bound_data,
        sdf_id,
        sdf_data,
        tex_pointer: t + 1,
        tex_id,
        tex_data,
    };
    assert(d.view_record().layout.bound_data =~= decode_record(rom@, bar@, sar@, tar@, p as int).layout.bound_data);
    Some((d, e))
}

/// The records that the scan loop of the generated shader visits, from the
/// start of the ROM until a zero or unknown sdf id, a record cut off by the
/// end of the ROM, or `MAX_SCAN_STEPS` records. `bar`, `sar` and `tar` hold
/// the arity of each bounding, sdf and color method, by id minus one.
pub fn decode_scene(
    rom: &Vec<u32>,
    bar: &Vec<usize>,
    sar: &Vec<usize>,
    tar: &Vec<usize>,
) -> (r: Vec<DecodedRecord>)
    ensures
        r@.len() == scan(rom@, bar@, sar@, tar@, 0, MAX_SCAN_STEPS as nat).len(),
        forall|i: int|
            0 <= i < r@.len() ==> (#[trigger] r@[i]).view_record() == scan(
                rom@,
                bar@,
                sar@,
                tar@,
                0,
                MAX_SCAN_STEPS as nat,
            )[i],
{
    let ghost all = scan(rom@, bar@, sar@, tar@, 0, MAX_SCAN_STEPS as nat);
    let mut out: Vec<DecodedRecord> = Vec::new();
    let mut p: usize = 0;
    let mut steps: usize = 0;
    while steps < MAX_SCAN_STEPS
        invariant
            steps <= MAX_SCAN_STEPS,
            out@.len() == steps,
            all == scan(rom@, bar@, sar@, tar@, 0, MAX_SCAN_STEPS as nat),
            all == out@.map_values(|d: DecodedRecord| d.view_record()) + scan(
                rom@,
                bar@,
                sar@,
                tar@,
                p as int,
                (MAX_SCAN_STEPS - steps) as nat,
            ),
        decreases MAX_SCAN_STEPS - steps,
    {
        let ghost before = out@;
        match decode_record_at(rom, bar, sar, tar, p) {
            None => {
                assert(all =~= out@.map_values(|d: DecodedRecord| d.view_record()));
                assert forall|i: int| 0 <= i < out@.len() implies (#[trigger] out@[i]).view_record()
                    == all[i] by {
                    assert(out@.map_values(|d: DecodedRecord| d.view_record())[i] == out@[i].view_record());
                }
                assert(all.len() == out@.len());
                return out;
            },
            Some((d, e)) => {
                let ghost dv = d.view_record();
                out.push(d);
                p = e;
                steps = steps + 1;
                assert(out@.map_values(|d: DecodedRecord| d.view_record()) =~= before.map_values(
                    |d: DecodedRecord| d.view_record(),
                ).push(dv));
                assert(all =~= out@.map_values(|d: DecodedRecord| d.view_record()) + scan(
                    rom@,
                    bar@,
                    sar@,
                    tar@,
                    p as int,
                    (MAX_SCAN_STEPS - steps) as nat,
                ));
            },
        }
    }
    assert(all =~= out@.map_values(|d: DecodedRecord| d.view_record()));
    assert forall|i: int| 0 <= i < out@.len() implies (#[trigger] out@[i]).view_record() == all[i] by {
        assert(out@.map_values(|d: DecodedRecord| d.view_record())[i] == out@[i].view_record());
    }
    out
}

} // verus!
