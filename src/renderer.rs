//! The method registry, the fragment shader assembled from it, and what one
//! frame does with the scene ROM.
use vstd::prelude::*;
use vstd::string::*;
use crate::methods::{
    DataDeserializer, Signature, supported_sig, sig_arity, bounding_case_text, sdf_case_text,
    tex_case_text,
};
use crate::scene::{Scene, Serializeable, SceneSerializer, fill, zeros};

verus! {

/// Words in the scene ROM that the generated shader declares.
pub const ROM_CAPACITY: usize = 1024;

/// Why a registration was refused.
#[derive(PartialEq, Eq, Structural, Clone, Copy, Debug)]
pub enum RegistryError {
    /// A parameter is of a kind with no ROM encoding (`Mat4`).
    UnsupportedKind,
    /// The table already holds `u32::MAX` methods, or the signature's word
    /// count does not fit a `usize`.
    Overflow,
}

/// A registered method: its name and its signature.
pub type MethodView = (Seq<char>, Signature);

pub open spec fn method_ok(m: MethodView) -> bool {
    supported_sig(m.1) && sig_arity(m.1) <= usize::MAX
}

pub open spec fn table_ok(t: Seq<MethodView>) -> bool {
    &&& t.len() <= u32::MAX
    &&& forall|i: int| 0 <= i < t.len() ==> method_ok(#[trigger] t[i])
}

/// The method with id `id` in `t`; id 0 (and any id past the end) names none.
pub open spec fn lookup(t: Seq<MethodView>, id: nat) -> Option<MethodView> {
    if 1 <= id && id <= t.len() {
        Some(t[id - 1])
    } else {
        None
    }
}

/// The result of registering `m` in table `t`.
pub open spec fn register_result(t: Seq<MethodView>, m: MethodView) -> Result<u32, RegistryError> {
    if !supported_sig(m.1) {
        Err(RegistryError::UnsupportedKind)
    } else if sig_arity(m.1) > usize::MAX || t.len() >= u32::MAX {
        Err(RegistryError::Overflow)
    } else {
        Ok((t.len() + 1) as u32)
    }
}

/// The cases of one table, back to back, each under its id.
pub open spec fn cases_text(
    t: Seq<MethodView>,
    case: spec_fn(nat, Seq<char>, Signature) -> Seq<char>,
) -> Seq<char>
    decreases t.len(),
{
    if t.len() == 0 {
        Seq::empty()
    } else {
        cases_text(t.drop_last(), case) + case(t.len(), t.last().0, t.last().1)
    }
}

pub open spec fn bounding_case_fn() -> spec_fn(nat, Seq<char>, Signature) -> Seq<char> {
    |id: nat, name: Seq<char>, es: Signature| bounding_case_text(id, name, es)
}

pub open spec fn sdf_case_fn() -> spec_fn(nat, Seq<char>, Signature) -> Seq<char> {
    |id: nat, name: Seq<char>, es: Signature| sdf_case_text(id, name, es)
}

pub open spec fn tex_case_fn() -> spec_fn(nat, Seq<char>, Signature) -> Seq<char> {
    |id: nat, name: Seq<char>, es: Signature| tex_case_text(id, name, es)
}

/// The method-definition fragments, each followed by a newline.
pub open spec fn lines_text(fs: Seq<Seq<char>>) -> Seq<char>
    decreases fs.len(),
{
    if fs.len() == 0 {
        Seq::empty()
    } else {
        lines_text(fs.drop_last()) + fs.last() + "\n"@
    }
}

/// The whole fragment shader: declarations, the method definitions, the
/// scan loop with the bounding and sdf cases, the shading switch with the
/// color cases, and the raymarching entry point.
pub open spec fn shader_text(
    fs: Seq<Seq<char>>,
    bound: Seq<MethodView>,
    sdf: Seq<MethodView>,
    tex: Seq<MethodView>,
) -> Seq<char> {
    SHADER_HEAD@ + lines_text(fs) + SHADER_SCAN_HEAD@ + cases_text(bound, bounding_case_fn())
        + SHADER_SCAN_MID@ + cases_text(sdf, sdf_case_fn()) + SHADER_SHADE_HEAD@ + cases_text(
        tex,
        tex_case_fn(),
    ) + SHADER_TAIL@
}

pub const SHADER_HEAD: &'static str = "#version 330

in vec2 f_pos;

out vec4 f_color;

uniform float elapsed_time;
uniform vec3 position;
uniform vec4 rotation;
uniform int scene_rom[1024];

// method definitions
";

pub const SHADER_SCAN_HEAD: &'static str = "
struct HitInfo {
    float dist;
    int id;
};

HitInfo scan_scene(in vec3 origin, in vec3 position, in vec3 ray) {
    int pnt = 0;
    HitInfo curHit = HitInfo(1001.0, 0);
    bool running = true;
    for (int step = 0; step < 256 && running; step++) {
        int bound_type = scene_rom[pnt];
        pnt += 1;
        bool hitable = true;
        switch (bound_type) {
        case 0: break;
";

pub const SHADER_SCAN_MID: &'static str = "        default: break;
        }
        int sdf_type = scene_rom[pnt];
        pnt += 1;
        switch (sdf_type) {
        case 0: running = false; break;
";

pub const SHADER_SHADE_HEAD: &'static str = "        default: running = false; break;
        }
    }
    return curHit;
}

vec4 shade(int pnt, in vec3 position) {
    int tex_type = scene_rom[pnt];
    pnt += 1;
    switch (tex_type) {
    case 0: return vec4(1.0, 0.0, 1.0, 1.0);
";

pub const SHADER_TAIL: &'static str = "    default: return vec4(1.0, 0.0, 1.0, 1.0);
    }
}

void main() {
    vec3 ray = normalize(vec3(f_pos, 2.0));
    vec3 hit_position = position;
    HitInfo cur = HitInfo(0.0, 0);
    float traveled = 0.0;
    float u = 255.0;
    for (int i = 0; i < 256; i++) {
        cur = scan_scene(position, hit_position, ray);
        traveled += cur.dist;
        hit_position = position + ray * traveled;
        if (cur.dist < 0.01 || traveled > 1000.0) {
            u = float(i);
            break;
        }
    }
    if (cur.dist < 0.01) {
        f_color = shade(cur.id, hit_position);
    } else {
        u /= 64.0;
        f_color = vec4(u, u, u, 1.0);
    }
}
";

/// The registry of shader methods: three append-only tables (bounding
/// tests, distance functions, color functions) and the free-form source
/// fragments that define them.
pub struct Renderer {
    registered_bounding_methods: Vec<(String, DataDeserializer)>,
    registered_sdf_methods: Vec<(String, DataDeserializer)>,
    registered_tex_methods: Vec<(String, DataDeserializer)>,
    functionality: Vec<String>,
}

pub open spec fn method_view(m: (String, DataDeserializer)) -> MethodView {
    (m.0@, m.1.sig())
}

pub open spec fn table_view(t: Seq<(String, DataDeserializer)>) -> Seq<MethodView> {
    t.map_values(|m: (String, DataDeserializer)| method_view(m))
}

/// Appends `(name, deserializer)` to `t` when `register_result` allows it.
fn register_in(
    t: &mut Vec<(String, DataDeserializer)>,
    name: String,
    deserializer: DataDeserializer,
) -> (r: Result<u32, RegistryError>)
    requires
        table_ok(table_view(old(t)@)),
    ensures
        r == register_result(table_view(old(t)@), (name@, deserializer.sig())),
        r is Ok ==> table_view(final(t)@) == table_view(old(t)@).push((name@, deserializer.sig())),
        r is Err ==> final(t)@ == old(t)@,
        table_ok(table_view(final(t)@)),
{
    let ghost m = (name@, deserializer.sig());
    match deserializer.arity() {
        None => {
            if !all_supported(&deserializer) {
                return Err(RegistryError::UnsupportedKind);
            }
            return Err(RegistryError::Overflow);
        },
        Some(_) => {},
    }
    if t.len() >= u32::MAX as usize {
        return Err(RegistryError::Overflow);
    }
    let n = t.len();
    t.push((name, deserializer));
    assert(table_view(t@) =~= table_view(old(t)@).push(m));
    Ok((n + 1) as u32)
}

enum CaseKind {
    Bounding,
    Sdf,
    Tex,
}

spec fn case_fn_of(kind: CaseKind) -> spec_fn(nat, Seq<char>, Signature) -> Seq<char> {
    match kind {
        CaseKind::Bounding => bounding_case_fn(),
        CaseKind::Sdf => sdf_case_fn(),
        CaseKind::Tex => tex_case_fn(),
    }
}

/// The cases of table `t`, each under its id.
fn cases_string(t: &Vec<(String, DataDeserializer)>, kind: CaseKind) -> (r: String)
    requires
        table_ok(table_view(t@)),
    ensures
        r@ == cases_text(table_view(t@), case_fn_of(kind)),
{
    let ghost tv = table_view(t@);
    let mut s = String::new();
    let mut k: usize = 0;
    assert(tv.subrange(0, 0) =~= Seq::<MethodView>::empty());
    while k < t.len()
        invariant
            tv == table_view(t@),
            table_ok(tv),
            k <= tv.len(),
            s@ == cases_text(tv.subrange(0, k as int), case_fn_of(kind)),
        decreases tv.len() - k,
    {
        assert(tv.subrange(0, k + 1).drop_last() =~= tv.subrange(0, k as int));
        assert(method_ok(tv[k as int]));
        let id = (k + 1) as u32;
        let c = match kind {
            CaseKind::Bounding => t[k].1.create_bounding_case(id, t[k].0.as_str()),
            CaseKind::Sdf => t[k].1.create_sdf_case(id, t[k].0.as_str()),
            CaseKind::Tex => t[k].1.create_tex_case(id, t[k].0.as_str()),
        };
        s.append(c.as_str());
        k = k + 1;
    }
    assert(tv.subrange(0, tv.len() as int) =~= tv);
    s
}

/// The method definitions, each on its own lines.
fn lines_string(fs: &Vec<String>) -> (r: String)
    ensures
        r@ == lines_text(fs@.map_values(|f: String| f@)),
{
    let ghost fv = fs@.map_values(|f: String| f@);
    let mut s = String::new();
    let mut k: usize = 0;
    assert(fv.subrange(0, 0) =~= Seq::<Seq<char>>::empty());
    while k < fs.len()
        invariant
            fv == fs@.map_values(|f: String| f@),
            k <= fv.len(),
            s@ == lines_text(fv.subrange(0, k as int)),
        decreases fv.len() - k,
    {
        assert(fv.subrange(0, k + 1).drop_last() =~= fv.subrange(0, k as int));
        s.append(fs[k].as_str());
        s.append("\n");
        k = k + 1;
    }
    assert(fv.subrange(0, fv.len() as int) =~= fv);
    s
}

/// The arity of each method of `t`, by id minus one.
fn arities_of(t: &Vec<(String, DataDeserializer)>) -> (r: Vec<usize>)
    requires
        table_ok(table_view(t@)),
    ensures
        r@ == table_view(t@).map_values(|m: MethodView| sig_arity(m.1) as usize),
{
    let ghost tv = table_view(t@);
    let mut r: Vec<usize> = Vec::new();
    let mut k: usize = 0;
    while k < t.len()
        invariant
            tv == table_view(t@),
            table_ok(tv),
            k <= tv.len(),
            r@ == tv.subrange(0, k as int).map_values(|m: MethodView| sig_arity(m.1) as usize),
        decreases tv.len() - k,
    {
        assert(method_ok(tv[k as int]));
        let a = match t[k].1.arity() {
            Some(a) => a,
            None => 0,
        };
        r.push(a);
        k = k + 1;
        assert(r@ =~= tv.subrange(0, k as int).map_values(|m: MethodView| sig_arity(m.1) as usize));
    }
    assert(tv.subrange(0, tv.len() as int) =~= tv);
    r
}

/// Whether every parameter of `d` has a ROM encoding.
fn all_supported(d: &DataDeserializer) -> (r: bool)
    ensures
        r == supported_sig(d.sig()),
{
    let mut k: usize = 0;
    while k < d.entries.len()
        invariant
            k <= d.entries@.len(),
            forall|i: int| 0 <= i < k ==> crate::methods::supported(#[trigger] d.sig()[i].1),
        decreases d.entries@.len() - k,
    {
        if d.entries[k].type_ == crate::methods::ParamKind::Mat4 {
            assert(!crate::methods::supported(d.sig()[k as int].1));
            return false;
        }
        k = k + 1;
    }
    true
}

impl Renderer {
    pub closed spec fn bound_table(&self) -> Seq<MethodView> {
        table_view(self.registered_bounding_methods@)
    }

    pub closed spec fn sdf_table(&self) -> Seq<MethodView> {
        table_view(self.registered_sdf_methods@)
    }

    pub closed spec fn tex_table(&self) -> Seq<MethodView> {
        table_view(self.registered_tex_methods@)
    }

    pub closed spec fn sources(&self) -> Seq<Seq<char>> {
        self.functionality@.map_values(|f: String| f@)
    }

    pub open spec fn wf(&self) -> bool {
        &&& table_ok(self.bound_table())
        &&& table_ok(self.sdf_table())
        &&& table_ok(self.tex_table())
    }

    /// A registry with no methods and no definitions.
    pub fn new() -> (r: Self)
        ensures
            r.wf(),
            r.bound_table() == Seq::<MethodView>::empty(),
            r.sdf_table() == Seq::<MethodView>::empty(),
            r.tex_table() == Seq::<MethodView>::empty(),
            r.sources() == Seq::<Seq<char>>::empty(),
    {
        let r = Renderer {
            registered_bounding_methods: Vec::new(),
            registered_sdf_methods: Vec::new(),
            registered_tex_methods: Vec::new(),
            functionality: Vec::new(),
        };
        assert(r.bound_table() =~= Seq::<MethodView>::empty());
        assert(r.sdf_table() =~= Seq::<MethodView>::empty());
        assert(r.tex_table() =~= Seq::<MethodView>::empty());
        assert(r.sources() =~= Seq::<Seq<char>>::empty());
        r
    }

    /// Adds a block of method definitions, already read, after those before.
    pub fn add_methods(&mut self, source: String)
        ensures
            final(self).sources() == old(self).sources().push(source@),
            final(self).bound_table() == old(self).bound_table(),
            final(self).sdf_table() == old(self).sdf_table(),
            final(self).tex_table() == old(self).tex_table(),
    {
        self.functionality.push(source);
        assert(self.sources() =~= old(self).sources().push(source@));
    }

    /// Registers a bounding test; its id is its position in the table plus one.
    pub fn register_bound_method(&mut self, method_name: String, deserializer: DataDeserializer) -> (r:
        Result<u32, RegistryError>)
        requires
            old(self).wf(),
        ensures
            final(self).wf(),
            r == register_result(old(self).bound_table(), (method_name@, deserializer.sig())),
            r is Ok ==> final(self).bound_table() == old(self).bound_table().push(
                (method_name@, deserializer.sig()),
            ),
            r matches Ok(id) ==> id >= 1 && lookup(final(self).bound_table(), id as nat) == Some(
                (method_name@, deserializer.sig()),
            ),
            r is Ok ==> forall|i: nat|
                i <= old(self).bound_table().len() ==> #[trigger] lookup(final(self).bound_table(), i)
                    == lookup(old(self).bound_table(), i),
            r is Err ==> final(self).bound_table() == old(self).bound_table(),
            final(self).sdf_table() == old(self).sdf_table(),
            final(self).tex_table() == old(self).tex_table(),
            final(self).sources() == old(self).sources(),
    {
        register_in(&mut self.registered_bounding_methods, method_name, deserializer)
    }

    /// Registers a distance function; its id is its position in the table plus one.
    pub fn register_sdf_method(&mut self, method_name: String, deserializer: DataDeserializer) -> (r:
        Result<u32, RegistryError>)
        requires
            old(self).wf(),
        ensures
            final(self).wf(),
            r == register_result(old(self).sdf_table(), (method_name@, deserializer.sig())),
            r is Ok ==> final(self).sdf_table() == old(self).sdf_table().push(
                (method_name@, deserializer.sig()),
            ),
            r matches Ok(id) ==> id >= 1 && lookup(final(self).sdf_table(), id as nat) == Some(
                (method_name@, deserializer.sig()),
            ),
            r is Ok ==> forall|i: nat|
                i <= old(self).sdf_table().len() ==> #[trigger] lookup(final(self).sdf_table(), i)
                    == lookup(old(self).sdf_table(), i),
            r is Err ==> final(self).sdf_table() == old(self).sdf_table(),
            final(self).bound_table() == old(self).bound_table(),
            final(self).tex_table() == old(self).tex_table(),
            final(self).sources() == old(self).sources(),
    {
        register_in(&mut self.registered_sdf_methods, method_name, deserializer)
    }

    /// Registers a color function; its id is its position in the table plus one.
    pub fn register_tex_method(&mut self, method_name: String, deserializer: DataDeserializer) -> (r:
        Result<u32, RegistryError>)
        requires
            old(self).wf(),
        ensures
            final(self).wf(),
            r == register_result(old(self).tex_table(), (method_name@, deserializer.sig())),
            r is Ok ==> final(self).tex_table() == old(self).tex_table().push(
                (method_name@, deserializer.sig()),
            ),
            r matches Ok(id) ==> id >= 1 && lookup(final(self).tex_table(), id as nat) == Some(
                (method_name@, deserializer.sig()),
            ),
            r is Ok ==> forall|i: nat|
                i <= old(self).tex_table().len() ==> #[trigger] lookup(final(self).tex_table(), i)
                    == lookup(old(self).tex_table(), i),
            r is Err ==> final(self).tex_table() == old(self).tex_table(),
            final(self).bound_table() == old(self).bound_table(),
            final(self).sdf_table() == old(self).sdf_table(),
            final(self).sources() == old(self).sources(),
    {
        register_in(&mut self.registered_tex_methods, method_name, deserializer)
    }

    /// The complete fragment shader for the methods registered so far.
    pub fn get_scene_shader(&self) -> (r: String)
        requires
            self.wf(),
        ensures
            r@ == shader_text(self.sources(), self.bound_table(), self.sdf_table(), self.tex_table()),
    {
        let mut s = String::from_str(SHADER_HEAD);
        let f = lines_string(&self.functionality);
        s.append(f.as_str());
        s.append(SHADER_SCAN_HEAD);
        let b = cases_string(&self.registered_bounding_methods, CaseKind::Bounding);
        s.append(b.as_str());
        s.append(SHADER_SCAN_MID);
        let d = cases_string(&self.registered_sdf_methods, CaseKind::Sdf);
        s.append(d.as_str());
        s.append(SHADER_SHADE_HEAD);
        let c = cases_string(&self.registered_tex_methods, CaseKind::Tex);
        s.append(c.as_str());
        s.append(SHADER_TAIL);
        s
    }

    /// ROM words carried by each bounding test, by id minus one.
    pub fn bound_arities(&self) -> (r: Vec<usize>)
        requires
            self.wf(),
        ensures
            r@ == self.bound_table().map_values(|m: MethodView| sig_arity(m.1) as usize),
    {
        arities_of(&self.registered_bounding_methods)
    }

    /// ROM words carried by each distance function, by id minus one.
    pub fn sdf_arities(&self) -> (r: Vec<usize>)
        requires
            self.wf(),
        ensures
            r@ == self.sdf_table().map_values(|m: MethodView| sig_arity(m.1) as usize),
    {
        arities_of(&self.registered_sdf_methods)
    }

    /// ROM words carried by each color function, by id minus one.
    pub fn tex_arities(&self) -> (r: Vec<usize>)
        requires
            self.wf(),
        ensures
            r@ == self.tex_table().map_values(|m: MethodView| sig_arity(m.1) as usize),
    {
        arities_of(&self.registered_tex_methods)
    }
}


/// Registering methods one after another in a table gives them the ids
/// 1, 2, 3, ... in call order: the method at position `i` has id `i + 1`,
/// which names it, and id 0 names no method.
pub proof fn lemma_registration_ids(t: Seq<MethodView>, ms: Seq<MethodView>)
    requires
        table_ok(t + ms),
    ensures
        forall|i: int|
            0 <= i < ms.len() ==> register_result(t + ms.subrange(0, i), #[trigger] ms[i]) == Ok::<
                u32,
                RegistryError,
            >((t.len() + i + 1) as u32),
        forall|i: int| 0 <= i < (t + ms).len() ==> lookup(t + ms, (i + 1) as nat) == Some(#[trigger] (t + ms)[i]),
        lookup(t + ms, 0) == None::<MethodView>,
{
    assert forall|i: int| 0 <= i < ms.len() implies register_result(
        t + ms.subrange(0, i),
        #[trigger] ms[i],
    ) == Ok::<u32, RegistryError>((t.len() + i + 1) as u32) by {
        assert((t + ms)[t.len() + i] == ms[i]);
        assert(method_ok((t + ms)[t.len() + i]));
    }
}

/// What one frame leaves in a ROM of `rom.len()` words: the scene's words
/// over zeros when the scene was dirty, else the ROM as it was.
pub open spec fn refreshed(dirty: bool, words: Seq<u32>, rom: Seq<u32>) -> Seq<u32> {
    if dirty {
        fill(zeros(rom.len()), 0, words)
    } else {
        rom
    }
}

/// The ROM step of a frame: a dirty scene is serialized into the zeroed ROM
/// and marked clean; a clean scene leaves both untouched. Returns whether
/// the ROM was rewritten (and so must be uploaded).
pub fn refresh_rom<S: Scene>(scene: &mut S, rom: &mut Vec<u32>) -> (uploaded: bool)
    ensures
        uploaded == old(scene).is_dirty(),
        final(rom)@ == refreshed(old(scene).is_dirty(), old(scene).rom_words(), old(rom)@),
        !final(scene).is_dirty(),
        final(scene).contents() == old(scene).contents(),
        final(scene).rom_words() == old(scene).rom_words(),
        !uploaded ==> *final(scene) == *old(scene),
{
    if scene.dirty() {
        let mut buf: Vec<u32> = Vec::new();
        std::mem::swap(rom, &mut buf);
        let mut writer = SceneSerializer::new(buf);
        scene.serialize(&mut writer);
        *rom = writer.into_words();
        scene.mark_clean();
        true
    } else {
        false
    }
}

/// Two frames with no `mark_dirty` between them rewrite the ROM at most
/// once: the second finds the scene clean and leaves the ROM as the first
/// left it.
pub proof fn lemma_dirty_gating(dirty: bool, words: Seq<u32>, rom: Seq<u32>)
    ensures
        refreshed(false, words, refreshed(dirty, words, rom)) == refreshed(dirty, words, rom),
        refreshed(dirty, words, rom).len() == rom.len(),
{
}

} // verus!
