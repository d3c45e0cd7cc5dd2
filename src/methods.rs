//! Typed parameter lists of registered shader methods, and the GLSL that
//! decodes them from the scene ROM and dispatches to the method.
use vstd::prelude::*;
use vstd::string::*;

verus! {

/// Where a block of method definitions comes from: a file to be read, or
/// the source text itself.
pub enum MethodDefinition {
    File(String),
    Script(String),
}

/// The numeric kind of one parameter. `Mat4` is declared but has no ROM
/// encoding: a signature that uses it is refused at registration.
#[derive(PartialEq, Eq, Structural, Clone, Copy, Debug)]
pub enum ParamKind {
    Float1,
    Float2,
    Float3,
    Float4,
    Int1,
    Int2,
    Int3,
    Int4,
    Mat4,
}

pub open spec fn supported(k: ParamKind) -> bool {
    k != ParamKind::Mat4
}

/// ROM words that one parameter of kind `k` takes.
pub open spec fn kind_arity(k: ParamKind) -> nat {
    match k {
        ParamKind::Float1 | ParamKind::Int1 => 1,
        ParamKind::Float2 | ParamKind::Int2 => 2,
        ParamKind::Float3 | ParamKind::Int3 => 3,
        ParamKind::Float4 | ParamKind::Int4 => 4,
        ParamKind::Mat4 => 0,
    }
}

pub open spec fn glsl_type(k: ParamKind) -> Seq<char> {
    match k {
        ParamKind::Float1 => "float"@,
        ParamKind::Float2 => "vec2"@,
        ParamKind::Float3 => "vec3"@,
        ParamKind::Float4 => "vec4"@,
        ParamKind::Int1 => "int"@,
        ParamKind::Int2 => "ivec2"@,
        ParamKind::Int3 => "ivec3"@,
        ParamKind::Int4 => "ivec4"@,
        ParamKind::Mat4 => ""@,
    }
}

/// The GLSL expression that reads a parameter of kind `k` at the cursor;
/// floats are rebuilt from their bit patterns.
pub open spec fn glsl_read(k: ParamKind) -> Seq<char> {
    match k {
        ParamKind::Float1 => "intBitsToFloat(scene_rom[pnt])"@,
        ParamKind::Float2 => "vec2(intBitsToFloat(scene_rom[pnt]), intBitsToFloat(scene_rom[pnt + 1]))"@,
        ParamKind::Float3 => "vec3(intBitsToFloat(scene_rom[pnt]), intBitsToFloat(scene_rom[pnt + 1]), intBitsToFloat(scene_rom[pnt + 2]))"@,
        ParamKind::Float4 => "vec4(intBitsToFloat(scene_rom[pnt]), intBitsToFloat(scene_rom[pnt + 1]), intBitsToFloat(scene_rom[pnt + 2]), intBitsToFloat(scene_rom[pnt + 3]))"@,
        ParamKind::Int1 => "scene_rom[pnt]"@,
        ParamKind::Int2 => "ivec2(scene_rom[pnt], scene_rom[pnt + 1])"@,
        ParamKind::Int3 => "ivec3(scene_rom[pnt], scene_rom[pnt + 1], scene_rom[pnt + 2])"@,
        ParamKind::Int4 => "ivec4(scene_rom[pnt], scene_rom[pnt + 1], scene_rom[pnt + 2], scene_rom[pnt + 3])"@,
        ParamKind::Mat4 => ""@,
    }
}

/// The decimal digit `d` as text.
pub open spec fn digit_text(d: nat) -> Seq<char> {
    if d == 0 {
        "0"@
    } else if d == 1 {
        "1"@
    } else if d == 2 {
        "2"@
    } else if d == 3 {
        "3"@
    } else if d == 4 {
        "4"@
    } else if d == 5 {
        "5"@
    } else if d == 6 {
        "6"@
    } else if d == 7 {
        "7"@
    } else if d == 8 {
        "8"@
    } else {
        "9"@
    }
}

/// `n` in decimal, without leading zeros.
pub open spec fn decimal(n: nat) -> Seq<char>
    decreases n,
{
    if n < 10 {
        digit_text(n)
    } else {
        decimal(n / 10) + digit_text(n % 10)
    }
}

fn digit_str(d: u32) -> (r: &'static str)
    requires
        d < 10,
    ensures
        r@ == digit_text(d as nat),
{
    if d == 0 {
        "0"
    } else if d == 1 {
        "1"
    } else if d == 2 {
        "2"
    } else if d == 3 {
        "3"
    } else if d == 4 {
        "4"
    } else if d == 5 {
        "5"
    } else if d == 6 {
        "6"
    } else if d == 7 {
        "7"
    } else if d == 8 {
        "8"
    } else {
        "9"
    }
}

/// `n` written in decimal.
pub fn decimal_string(n: u32) -> (r: String)
    ensures
        r@ == decimal(n as nat),
    decreases n,
{
    if n < 10 {
        String::from_str(digit_str(n))
    } else {
        let mut s = decimal_string(n / 10);
        s.append(digit_str(n % 10));
        s
    }
}

/// One named, typed parameter of a method signature.
pub struct DataEntry {
    pub name: String,
    pub type_: ParamKind,
}

pub open spec fn entry_view(e: DataEntry) -> (Seq<char>, ParamKind) {
    (e.name@, e.type_)
}

/// `type name = read; pnt += arity;`: declares the parameter, reads it at
/// the cursor and moves the cursor past it.
pub open spec fn decl_text(e: (Seq<char>, ParamKind)) -> Seq<char> {
    glsl_type(e.1) + " "@ + e.0 + " = "@ + glsl_read(e.1) + "; pnt += "@ + decimal(kind_arity(e.1))
        + ";"@
}

impl ParamKind {
    /// ROM words of one parameter of this kind; `None` for `Mat4`.
    pub fn arity(&self) -> (r: Option<usize>)
        ensures
            supported(*self) ==> r == Some(kind_arity(*self) as usize),
            !supported(*self) ==> r is None,
    {
        match self {
            ParamKind::Float1 | ParamKind::Int1 => Some(1),
            ParamKind::Float2 | ParamKind::Int2 => Some(2),
            ParamKind::Float3 | ParamKind::Int3 => Some(3),
            ParamKind::Float4 | ParamKind::Int4 => Some(4),
            ParamKind::Mat4 => None,
        }
    }

    fn type_str(&self) -> (r: &'static str)
        ensures
            r@ == glsl_type(*self),
    {
        match self {
            ParamKind::Float1 => "float",
            ParamKind::Float2 => "vec2",
            ParamKind::Float3 => "vec3",
            ParamKind::Float4 => "vec4",
            ParamKind::Int1 => "int",
            ParamKind::Int2 => "ivec2",
            ParamKind::Int3 => "ivec3",
            ParamKind::Int4 => "ivec4",
            ParamKind::Mat4 => "",
        }
    }

    fn read_str(&self) -> (r: &'static str)
        ensures
            r@ == glsl_read(*self),
    {
        match self {
            ParamKind::Float1 => "intBitsToFloat(scene_rom[pnt])",
            ParamKind::Float2 => "vec2(intBitsToFloat(scene_rom[pnt]), intBitsToFloat(scene_rom[pnt + 1]))",
            ParamKind::Float3 => "vec3(intBitsToFloat(scene_rom[pnt]), intBitsToFloat(scene_rom[pnt + 1]), intBitsToFloat(scene_rom[pnt + 2]))",
            ParamKind::Float4 => "vec4(intBitsToFloat(scene_rom[pnt]), intBitsToFloat(scene_rom[pnt + 1]), intBitsToFloat(scene_rom[pnt + 2]), intBitsToFloat(scene_rom[pnt + 3]))",
            ParamKind::Int1 => "scene_rom[pnt]",
            ParamKind::Int2 => "ivec2(scene_rom[pnt], scene_rom[pnt + 1])",
            ParamKind::Int3 => "ivec3(scene_rom[pnt], scene_rom[pnt + 1], scene_rom[pnt + 2])",
            ParamKind::Int4 => "ivec4(scene_rom[pnt], scene_rom[pnt + 1], scene_rom[pnt + 2], scene_rom[pnt + 3])",
            ParamKind::Mat4 => "",
        }
    }
}

impl DataEntry {
    /// The GLSL statement that decodes this parameter from the ROM.
    pub fn to_string(&self) -> (r: String)
        requires
            supported(self.type_),
        ensures
            r@ == decl_text(entry_view(*self)),
    {
        let mut s = String::from_str(self.type_.type_str());
        s.append(" ");
        s.append(self.name.as_str());
        s.append(" = ");
        s.append(self.type_.read_str());
        s.append("; pnt += ");
        let a = self.type_.arity();
        let n = match a {
            Some(n) => n,
            None => 0,
        };
        let digits = decimal_string(n as u32);
        s.append(digits.as_str());
        s.append(";");
        s
    }
}


/// A method signature: its parameters, in ROM order.
pub struct DataDeserializer {
    pub entries: Vec<DataEntry>,
}

pub type Signature = Seq<(Seq<char>, ParamKind)>;

pub open spec fn supported_sig(es: Signature) -> bool {
    forall|i: int| 0 <= i < es.len() ==> supported(#[trigger] es[i].1)
}

/// ROM words that a call with signature `es` carries.
pub open spec fn sig_arity(es: Signature) -> nat
    decreases es.len(),
{
    if es.len() == 0 {
        0
    } else {
        sig_arity(es.drop_last()) + kind_arity(es.last().1)
    }
}

/// The decode statements of all parameters, one per line.
pub open spec fn decls_text(es: Signature) -> Seq<char>
    decreases es.len(),
{
    if es.len() == 0 {
        Seq::empty()
    } else {
        decls_text(es.drop_last()) + decl_text(es.last()) + "\n"@
    }
}

/// `, name` for each parameter, in order: what follows the fixed leading
/// arguments of a call.
pub open spec fn args_text(es: Signature) -> Seq<char>
    decreases es.len(),
{
    if es.len() == 0 {
        Seq::empty()
    } else {
        args_text(es.drop_last()) + ", "@ + es.last().0
    }
}

/// The switch case of a bounding test: decode its parameters, then set
/// `hitable` from the test on the ray.
pub open spec fn bounding_case_text(id: nat, name: Seq<char>, es: Signature) -> Seq<char> {
    "case "@ + decimal(id) + ": {\n"@ + decls_text(es) + "hitable = "@ + name + "(origin, ray"@
        + args_text(es) + ");\n} break;\n"@
}

/// The switch case of a distance function: decode its parameters, note
/// where the color id lies, step past the color block by its length word,
/// and only where the bounding test passed evaluate the distance and keep
/// the nearest hit.
pub open spec fn sdf_case_text(id: nat, name: Seq<char>, es: Signature) -> Seq<char> {
    "case "@ + decimal(id) + ": {\n"@ + decls_text(es) + SDF_CASE_SKIP@ + name + "(position"@
        + args_text(es) + SDF_CASE_TAIL@
}

/// The switch case of a color function: decode its parameters and return
/// the color.
pub open spec fn tex_case_text(id: nat, name: Seq<char>, es: Signature) -> Seq<char> {
    "case "@ + decimal(id) + ": {\n"@ + decls_text(es) + "return "@ + name + "(position"@
        + args_text(es) + ");\n}\n"@
}

pub const SDF_CASE_SKIP: &'static str = "int tex_pnt = pnt + 1;\npnt += 1 + scene_rom[pnt];\nif (hitable) {\nfloat new_dist = ";

pub const SDF_CASE_TAIL: &'static str = ");\nif (new_dist < curHit.dist) {\ncurHit = HitInfo(new_dist, tex_pnt);\n}\n}\n} break;\n";

impl DataDeserializer {
    pub open spec fn sig(&self) -> Signature {
        self.entries@.map_values(|e: DataEntry| entry_view(e))
    }

    /// ROM words of a call with this signature; `None` where a parameter
    /// is of an unsupported kind or the count does not fit a `usize`.
    pub fn arity(&self) -> (r: Option<usize>)
        ensures
            r is Some <==> supported_sig(self.sig()) && sig_arity(self.sig()) <= usize::MAX,
            r matches Some(n) ==> n == sig_arity(self.sig()),
    {
        let ghost es = self.sig();
        let mut total: usize = 0;
        let mut k: usize = 0;
        while k < self.entries.len()
            invariant
                es == self.sig(),
                k <= es.len(),
                supported_sig(es.subrange(0, k as int)),
                total == sig_arity(es.subrange(0, k as int)),
            decreases es.len() - k,
        {
            assert(es.subrange(0, k + 1).drop_last() =~= es.subrange(0, k as int));
            match self.entries[k].type_.arity() {
                None => {
                    assert(!supported(es[k as int].1));
                    return None;
                },
                Some(a) => {
                    if a > usize::MAX - total {
                        proof {
                            lemma_sig_arity_grows(es, k as int + 1);
                        }
                        return None;
                    }
                    total = total + a;
                },
            }
            k = k + 1;
        }
        assert(es.subrange(0, es.len() as int) =~= es);
        Some(total)
    }

    /// The decode statements of all parameters.
    fn decls_string(&self) -> (r: String)
        requires
            supported_sig(self.sig()),
        ensures
            r@ == decls_text(self.sig()),
    {
        let ghost es = self.sig();
        let mut s = String::new();
        let mut k: usize = 0;
        assert(es.subrange(0, 0) =~= Seq::<(Seq<char>, ParamKind)>::empty());
        while k < self.entries.len()
            invariant
                es == self.sig(),
                supported_sig(es),
                k <= es.len(),
                s@ == decls_text(es.subrange(0, k as int)),
            decreases es.len() - k,
        {
            assert(es.subrange(0, k + 1).drop_last() =~= es.subrange(0, k as int));
            assert(supported(es[k as int].1));
            let d = self.entries[k].to_string();
            s.append(d.as_str());
            s.append("\n");
            k = k + 1;
        }
        assert(es.subrange(0, es.len() as int) =~= es);
        s
    }

    /// `, name` for each parameter.
    fn args_string(&self) -> (r: String)
        ensures
            r@ == args_text(self.sig()),
    {
        let ghost es = self.sig();
        let mut s = String::new();
        let mut k: usize = 0;
        assert(es.subrange(0, 0) =~= Seq::<(Seq<char>, ParamKind)>::empty());
        while k < self.entries.len()
            invariant
                es == self.sig(),
                k <= es.len(),
                s@ == args_text(es.subrange(0, k as int)),
            decreases es.len() - k,
        {
            assert(es.subrange(0, k + 1).drop_last() =~= es.subrange(0, k as int));
            s.append(", ");
            s.append(self.entries[k].name.as_str());
            k = k + 1;
        }
        assert(es.subrange(0, es.len() as int) =~= es);
        s
    }

    /// The switch case that runs bounding test `name` under id `id`.
    pub fn create_bounding_case(&self, id: u32, name: &str) -> (r: String)
        requires
            supported_sig(self.sig()),
        ensures
            r@ == bounding_case_text(id as nat, name@, self.sig()),
    {
        let mut s = String::from_str("case ");
        let n = decimal_string(id);
        s.append(n.as_str());
        s.append(": {\n");
        let d = self.decls_string();
        s.append(d.as_str());
        s.append("hitable = ");
        s.append(name);
        s.append("(origin, ray");
        let a = self.args_string();
        s.append(a.as_str());
        s.append(");\n} break;\n");
        s
    }

    /// The switch case that runs distance function `name` under id `id`.
    pub fn create_sdf_case(&self, id: u32, name: &str) -> (r: String)
        requires
            supported_sig(self.sig()),
        ensures
            r@ == sdf_case_text(id as nat, name@, self.sig()),
    {
        let mut s = String::from_str("case ");
        let n = decimal_string(id);
        s.append(n.as_str());
        s.append(": {\n");
        let d = self.decls_string();
        s.append(d.as_str());
        s.append(SDF_CASE_SKIP);
        s.append(name);
        s.append("(position");
        let a = self.args_string();
        s.append(a.as_str());
        s.append(SDF_CASE_TAIL);
        s
    }

    /// The switch case that runs color function `name` under id `id`.
    pub fn create_tex_case(&self, id: u32, name: &str) -> (r: String)
        requires
            supported_sig(self.sig()),
        ensures
            r@ == tex_case_text(id as nat, name@, self.sig()),
    {
        let mut s = String::from_str("case ");
        let n = decimal_string(id);
        s.append(n.as_str());
        s.append(": {\n");
        let d = self.decls_string();
        s.append(d.as_str());
        s.append("return ");
        s.append(name);
        s.append("(position");
        let a = self.args_string();
        s.append(a.as_str());
        s.append(");\n}\n");
        s
    }
}

/// The arity of a signature is at least that of any of its prefixes.
proof fn lemma_sig_arity_grows(es: Signature, k: int)
    requires
        0 <= k <= es.len(),
    ensures
        sig_arity(es.subrange(0, k)) <= sig_arity(es),
    decreases es.len() - k,
{
    if k < es.len() {
        lemma_sig_arity_grows(es, k + 1);
        assert(es.subrange(0, k + 1).drop_last() =~= es.subrange(0, k));
    } else {
        assert(es.subrange(0, k) =~= es);
    }
}

} // verus!
