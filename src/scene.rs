use vstd::prelude::*;

verus! {

/// The words of `w` after the words of `s` have been placed one by one from
/// index `i` on; words that would land at or past the end of `w` are dropped.
pub open spec fn fill(w: Seq<u32>, i: int, s: Seq<u32>) -> Seq<u32> {
    Seq::new(w.len(), |j: int| if i <= j && j < i + s.len() { s[j - i] } else { w[j] })
}

pub open spec fn min_int(a: int, b: int) -> int {
    if a <= b {
        a
    } else {
        b
    }
}

/// `capacity` words, all zero.
pub open spec fn zeros(capacity: nat) -> Seq<u32> {
    Seq::new(capacity, |j: int| 0u32)
}

/// Writing `a` word by word and then `b` word by word is writing `a + b` word by word.
pub proof fn lemma_fill_concat(w: Seq<u32>, i: int, a: Seq<u32>, b: Seq<u32>)
    requires
        0 <= i <= w.len(),
    ensures
        fill(fill(w, i, a), min_int(i + a.len(), w.len() as int), b) == fill(w, i, a + b),
{
    assert(fill(fill(w, i, a), min_int(i + a.len(), w.len() as int), b) =~= fill(w, i, a + b));
}

/// Writing word by word never goes past the buffer: the capacity stays,
/// the index stays within it, the words before the start are untouched, and
/// when the words do not all fit exactly those that fit are written and the
/// buffer is full.
pub proof fn lemma_overflow_safety(before: SceneSerializer, after: SceneSerializer, s: Seq<u32>)
    requires
        before.wf(),
        after.wrote(before, s),
    ensures
        after.capacity() == before.capacity(),
        after.index() <= after.capacity(),
        after.words().subrange(0, before.index() as int) == before.words().subrange(
            0,
            before.index() as int,
        ),
        before.index() + s.len() > before.capacity() ==> {
            &&& after.index() == before.capacity()
            &&& after.words() == before.words().subrange(0, before.index() as int) + s.subrange(
                0,
                before.capacity() - before.index(),
            )
        },
{
    assert(after.words().subrange(0, before.index() as int) =~= before.words().subrange(
        0,
        before.index() as int,
    ));
    if before.index() + s.len() > before.capacity() {
        assert(after.words() =~= before.words().subrange(0, before.index() as int) + s.subrange(
            0,
            before.capacity() - before.index(),
        ));
    }
}

/// Writes words into a fixed-capacity scene ROM, front to back. Writes that do
/// not fit are dropped rather than reported.
pub struct SceneSerializer {
    out: Vec<u32>,
    index: usize,
}

impl SceneSerializer {
    /// The whole buffer, written and unwritten words alike.
    pub closed spec fn words(&self) -> Seq<u32> {
        self.out@
    }

    /// Index of the next word to be written.
    pub closed spec fn index(&self) -> nat {
        self.index as nat
    }

    pub open spec fn capacity(&self) -> nat {
        self.words().len()
    }

    pub open spec fn wf(&self) -> bool {
        self.index() <= self.capacity()
    }

    /// `self` is what writing `s` word by word into `before` leaves.
    pub open spec fn wrote(&self, before: SceneSerializer, s: Seq<u32>) -> bool {
        &&& self.wf()
        &&& self.words() == fill(before.words(), before.index() as int, s)
        &&& self.index() == min_int((before.index() + s.len()) as int, before.capacity() as int)
    }

    /// Takes `out` as the ROM, clears every word of it to zero (the zero tail is
    /// what ends the scene for the interpreter) and starts writing at index 0.
    pub fn new(out: Vec<u32>) -> (r: Self)
        ensures
            r.wf(),
            r.words() == zeros(out@.len()),
            r.index() == 0,
    {
        let mut out = out;
        let n = out.len();
        let mut i: usize = 0;
        while i < n
            invariant
                out@.len() == n,
                i <= n,
                forall|j: int| 0 <= j < i ==> out@[j] == 0u32,
            decreases n - i,
        {
            out.set(i, 0);
            i = i + 1;
        }
        assert(out@ =~= zeros(n as nat));
        SceneSerializer { out, index: 0 }
    }

    /// Whether `els` more words fit.
    pub fn has_space_for(&self, els: usize) -> (r: bool)
        requires
            self.wf(),
        ensures
            r == (self.index() + els <= self.capacity()),
    {
        els <= self.out.len() - self.index
    }

    /// Appends one word if one more fits, else leaves the buffer as it is.
    pub fn write_value(&mut self, value: u32)
        requires
            old(self).wf(),
        ensures
            final(self).wrote(*old(self), seq![value]),
            old(self).index() < old(self).capacity() ==> final(self).index() == old(self).index() + 1,
            old(self).index() == old(self).capacity() ==> *final(self) == *old(self),
    {
        let n = self.out.len();
        if self.has_space_for(1) {
            self.out.set(self.index, value);
            self.index = self.index + 1;
        }
        assert(self.out@ =~= fill(old(self).out@, old(self).index as int, seq![value]));
    }

    /// Appends all of `value` if all of it fits; else writes none of it.
    pub fn write_values(&mut self, value: &[u32])
        requires
            old(self).wf(),
        ensures
            final(self).wf(),
            old(self).index() + value@.len() <= old(self).capacity() ==> final(self).wrote(
                *old(self),
                value@,
            ),
            old(self).index() + value@.len() > old(self).capacity() ==> *final(self) == *old(self),
    {
        let n = self.out.len();
        if self.has_space_for(value.len()) {
            let start = self.index;
            let mut k: usize = 0;
            while k < value.len()
                invariant
                    start == old(self).index,
                    start + value@.len() <= self.out@.len(),
                    n == self.out@.len(),
                    self.out@.len() == old(self).out@.len(),
                    self.index == start,
                    k <= value@.len(),
                    forall|j: int|
                        0 <= j < self.out@.len() ==> #[trigger] self.out@[j] == (if start <= j
                            && j < start + k { value@[j - start] } else { old(self).out@[j] }),
                decreases value@.len() - k,
            {
                self.out.set(start + k, value[k]);
                k = k + 1;
            }
            self.index = start + value.len();
            assert(self.out@ =~= fill(old(self).out@, start as int, value@));
        }
    }

    /// Number of words written so far.
    pub fn written_len(&self) -> (r: usize)
        ensures
            r == self.index(),
    {
        self.index
    }

    /// Gives the ROM back.
    pub fn into_words(self) -> (r: Vec<u32>)
        ensures
            r@ == self.words(),
    {
        self.out
    }
}


/// Something that lays itself out as scene ROM words.
pub trait Serializeable {
    /// The words this value writes, in order.
    spec fn rom_words(&self) -> Seq<u32>;

    /// Writes `rom_words()` word by word; what does not fit is dropped.
    fn serialize(&self, serializer: &mut SceneSerializer)
        requires
            old(serializer).wf(),
        ensures
            final(serializer).wrote(*old(serializer), self.rom_words()),
    ;
}

impl Serializeable for u32 {
    open spec fn rom_words(&self) -> Seq<u32> {
        seq![*self]
    }

    fn serialize(&self, serializer: &mut SceneSerializer) {
        serializer.write_value(*self);
    }
}

impl Serializeable for Vec<u32> {
    open spec fn rom_words(&self) -> Seq<u32> {
        self@
    }

    fn serialize(&self, serializer: &mut SceneSerializer) {
        let ghost start = *serializer;
        let mut k: usize = 0;
        assert(serializer.words() =~= fill(start.words(), start.index() as int, self@.subrange(0, 0)));
        while k < self.len()
            invariant
                start.wf(),
                k <= self@.len(),
                serializer.wrote(start, self@.subrange(0, k as int)),
            decreases self@.len() - k,
        {
            serializer.write_value(self[k]);
            proof {
                lemma_fill_concat(
                    start.words(),
                    start.index() as int,
                    self@.subrange(0, k as int),
                    seq![self@[k as int]],
                );
                assert(self@.subrange(0, k as int) + seq![self@[k as int]] =~= self@.subrange(
                    0,
                    k + 1,
                ));
            }
            k = k + 1;
        }
        assert(self@.subrange(0, self@.len() as int) =~= self@);
    }
}

/// What one scene instance writes into the ROM: an optional bounding test, a
/// distance function and an optional color function, each as a method id
/// and the raw words of its parameters. Id 0 marks an absent bounding test
/// or color function.
pub struct InstanceLayout {
    pub bound_id: u32,
    pub bound_data: Seq<u32>,
    pub sdf_id: u32,
    pub sdf_data: Seq<u32>,
    pub tex_id: u32,
    pub tex_data: Seq<u32>,
}

/// `bound_id`, followed by the bounding data only where a bounding test is present.
pub open spec fn bound_words(l: InstanceLayout) -> Seq<u32> {
    if l.bound_id == 0 {
        seq![0u32]
    } else {
        seq![l.bound_id] + l.bound_data
    }
}

/// `sdf_id` and the distance function's data.
pub open spec fn sdf_words(l: InstanceLayout) -> Seq<u32> {
    seq![l.sdf_id] + l.sdf_data
}

/// `tex_len`, then `tex_id` (always present) and the color data, where
/// `tex_len` counts the words after it: one for the id plus the data.
pub open spec fn tex_words(l: InstanceLayout) -> Seq<u32> {
    if l.tex_id == 0 {
        seq![1u32, 0u32]
    } else {
        seq![(1 + l.tex_data.len()) as u32, l.tex_id] + l.tex_data
    }
}

/// The record of one instance, back to back with the next one in the ROM.
pub open spec fn record_words(l: InstanceLayout) -> Seq<u32> {
    bound_words(l) + sdf_words(l) + tex_words(l)
}

/// The records of a sequence of instances, in order.
pub open spec fn scene_words(ls: Seq<InstanceLayout>) -> Seq<u32>
    decreases ls.len(),
{
    if ls.len() == 0 {
        Seq::empty()
    } else {
        scene_words(ls.drop_last()) + record_words(ls.last())
    }
}

/// An instance of the scene, seen through the methods that describe it.
pub trait SceneInstance {
    spec fn layout(&self) -> InstanceLayout;

    /// Id of the bounding test; 0 for none.
    fn get_bound_id(&self) -> (r: u32)
        ensures
            r == self.layout().bound_id,
    ;

    /// Id of the distance function; never 0 for a real instance, as 0 ends the scene.
    fn get_sdf_id(&self) -> (r: u32)
        ensures
            r == self.layout().sdf_id,
    ;

    /// Id of the color function; 0 for none.
    fn get_tex_id(&self) -> (r: u32)
        ensures
            r == self.layout().tex_id,
    ;

    fn get_bound_data(&self) -> (r: Vec<u32>)
        ensures
            r@ == self.layout().bound_data,
    ;

    fn get_sdf_data(&self) -> (r: Vec<u32>)
        ensures
            r@ == self.layout().sdf_data,
    ;

    /// The color data; it is short enough for its length prefix to fit one word.
    fn get_tex_data(&self) -> (r: Vec<u32>)
        ensures
            r@ == self.layout().tex_data,
            r@.len() < u32::MAX,
    ;
}

/// Writes the record of `inst`: the bounding id (and data if present), the
/// distance id and data, then the color block with its length prefix.
pub fn serialize_instance<I: SceneInstance>(inst: &I, serializer: &mut SceneSerializer)
    requires
        old(serializer).wf(),
    ensures
        final(serializer).wrote(*old(serializer), record_words(inst.layout())),
{
    let ghost l = inst.layout();
    let ghost s0 = *serializer;
    let bound_id = inst.get_bound_id();
    if bound_id != 0 {
        serializer.write_value(bound_id);
        let data = inst.get_bound_data();
        data.serialize(serializer);
        proof {
            lemma_fill_concat(s0.words(), s0.index() as int, seq![bound_id], data@);
        }
    } else {
        serializer.write_value(0);
    }
    let ghost s2 = *serializer;
    assert(serializer.wrote(s0, bound_words(l)));
    serializer.write_value(inst.get_sdf_id());
    let sdf_data = inst.get_sdf_data();
    sdf_data.serialize(serializer);
    proof {
        lemma_fill_concat(s2.words(), s2.index() as int, seq![l.sdf_id], sdf_data@);
        lemma_fill_concat(s0.words(), s0.index() as int, bound_words(l), sdf_words(l));
    }
    let ghost s3 = *serializer;
    let tex_id = inst.get_tex_id();
    if tex_id != 0 {
        let data = inst.get_tex_data();
        let tex_len: u32 = 1 + data.len() as u32;
        serializer.write_value(tex_len);
        serializer.write_value(tex_id);
        data.serialize(serializer);
        proof {
            lemma_fill_concat(s3.words(), s3.index() as int, seq![tex_len], seq![tex_id]);
            assert(seq![tex_len] + seq![tex_id] =~= seq![tex_len, tex_id]);
            lemma_fill_concat(s3.words(), s3.index() as int, seq![tex_len, tex_id], data@);
        }
    } else {
        serializer.write_value(1);
        serializer.write_value(0);
        proof {
            lemma_fill_concat(s3.words(), s3.index() as int, seq![1u32], seq![0u32]);
            assert(seq![1u32] + seq![0u32] =~= seq![1u32, 0u32]);
        }
    }
    proof {
        lemma_fill_concat(
            s0.words(),
            s0.index() as int,
            bound_words(l) + sdf_words(l),
            tex_words(l),
        );
    }
}


/// A scene instance held as its ids and raw parameter words.
pub struct InstanceRecord {
    bound_id: u32,
    bound_data: Vec<u32>,
    sdf_id: u32,
    sdf_data: Vec<u32>,
    tex_id: u32,
    tex_data: Vec<u32>,
}

/// A copy of `v`.
fn copy_words(v: &Vec<u32>) -> (r: Vec<u32>)
    ensures
        r@ == v@,
{
    let mut r: Vec<u32> = Vec::new();
    let mut k: usize = 0;
    while k < v.len()
        invariant
            k <= v@.len(),
            r@ == v@.subrange(0, k as int),
        decreases v@.len() - k,
    {
        r.push(v[k]);
        k = k + 1;
        assert(r@ =~= v@.subrange(0, k as int));
    }
    assert(v@.subrange(0, v@.len() as int) =~= v@);
    r
}

impl InstanceRecord {
    #[verifier::type_invariant]
    spec fn inv(&self) -> bool {
        self.tex_data@.len() < u32::MAX
    }

    /// An instance from its parts. The color data must leave room for its
    /// length prefix (one more than its length) in a single word.
    pub fn new(
        bound_id: u32,
        bound_data: Vec<u32>,
        sdf_id: u32,
        sdf_data: Vec<u32>,
        tex_id: u32,
        tex_data: Vec<u32>,
    ) -> (r: Self)
        requires
            tex_data@.len() < u32::MAX,
        ensures
            r.layout() == (InstanceLayout {
                bound_id,
                bound_data: bound_data@,
                sdf_id,
                sdf_data: sdf_data@,
                tex_id,
                tex_data: tex_data@,
            }),
    {
        InstanceRecord { bound_id, bound_data, sdf_id, sdf_data, tex_id, tex_data }
    }
}

impl SceneInstance for InstanceRecord {
    closed spec fn layout(&self) -> InstanceLayout {
        InstanceLayout {
            bound_id: self.bound_id,
            bound_data: self.bound_data@,
            sdf_id: self.sdf_id,
            sdf_data: self.sdf_data@,
            tex_id: self.tex_id,
            tex_data: self.tex_data@,
        }
    }

    fn get_bound_id(&self) -> (r: u32) {
        self.bound_id
    }

    fn get_sdf_id(&self) -> (r: u32) {
        self.sdf_id
    }

    fn get_tex_id(&self) -> (r: u32) {
        self.tex_id
    }

    fn get_bound_data(&self) -> (r: Vec<u32>) {
        copy_words(&self.bound_data)
    }

    fn get_sdf_data(&self) -> (r: Vec<u32>) {
        copy_words(&self.sdf_data)
    }

    fn get_tex_data(&self) -> (r: Vec<u32>) {
        proof {
            use_type_invariant(self);
        }
        copy_words(&self.tex_data)
    }
}

impl Serializeable for InstanceRecord {
    open spec fn rom_words(&self) -> Seq<u32> {
        record_words(self.layout())
    }

    fn serialize(&self, serializer: &mut SceneSerializer) {
        serialize_instance(self, serializer);
    }
}

/// A scene: instances that serialize back to back, and whether the ROM is
/// out of date with them.
pub trait Scene: Serializeable {
    spec fn is_dirty(&self) -> bool;

    /// The instances of the scene, in order.
    spec fn contents(&self) -> Seq<InstanceLayout>;

    fn dirty(&self) -> (r: bool)
        ensures
            r == self.is_dirty(),
    ;

    /// Records that the ROM now holds this scene.
    fn mark_clean(&mut self)
        ensures
            !final(self).is_dirty(),
            final(self).contents() == old(self).contents(),
            final(self).rom_words() == old(self).rom_words(),
    ;
}

/// An ordered list of instances with a dirty flag.
pub struct SimpleScene {
    dirty: bool,
    objects: Vec<InstanceRecord>,
}

impl SimpleScene {
    pub closed spec fn flagged(&self) -> bool {
        self.dirty
    }

    /// The instances, in the order they were added.
    pub closed spec fn instances(&self) -> Seq<InstanceLayout> {
        self.objects@.map_values(|o: InstanceRecord| o.layout())
    }

    /// An empty scene, not yet marked dirty.
    pub fn new() -> (r: Self)
        ensures
            !r.flagged(),
            r.instances() == Seq::<InstanceLayout>::empty(),
    {
        let r = SimpleScene { dirty: false, objects: Vec::new() };
        assert(r.instances() =~= Seq::<InstanceLayout>::empty());
        r
    }

    /// Adds `x` after the instances already there. The ROM is not touched
    /// until the scene is marked dirty.
    pub fn add_instance(&mut self, x: InstanceRecord)
        ensures
            final(self).instances() == old(self).instances().push(x.layout()),
            final(self).flagged() == old(self).flagged(),
    {
        self.objects.push(x);
        assert(self.instances() =~= old(self).instances().push(x.layout()));
    }

    /// Asks for the ROM to be rewritten before the next frame.
    pub fn mark_dirty(&mut self)
        ensures
            final(self).flagged(),
            final(self).instances() == old(self).instances(),
    {
        self.dirty = true;
    }
}

impl Serializeable for SimpleScene {
    open spec fn rom_words(&self) -> Seq<u32> {
        scene_words(self.instances())
    }

    fn serialize(&self, serializer: &mut SceneSerializer) {
        let ghost start = *serializer;
        let ghost ls = self.instances();
        let mut k: usize = 0;
        assert(ls.subrange(0, 0) =~= Seq::<InstanceLayout>::empty());
        assert(serializer.words() =~= fill(start.words(), start.index() as int, Seq::empty()));
        while k < self.objects.len()
            invariant
                start.wf(),
                ls == self.instances(),
                ls.len() == self.objects@.len(),
                k <= ls.len(),
                serializer.wrote(start, scene_words(ls.subrange(0, k as int))),
            decreases ls.len() - k,
        {
            self.objects[k].serialize(serializer);
            proof {
                lemma_fill_concat(
                    start.words(),
                    start.index() as int,
                    scene_words(ls.subrange(0, k as int)),
                    record_words(ls[k as int]),
                );
                assert(ls.subrange(0, k + 1).drop_last() =~= ls.subrange(0, k as int));
            }
            k = k + 1;
        }
        assert(ls.subrange(0, ls.len() as int) =~= ls);
    }
}

impl Scene for SimpleScene {
    open spec fn is_dirty(&self) -> bool {
        self.flagged()
    }

    open spec fn contents(&self) -> Seq<InstanceLayout> {
        self.instances()
    }

    fn dirty(&self) -> (r: bool) {
        self.dirty
    }

    fn mark_clean(&mut self) {
        self.dirty = false;
    }
}

} // verus!
