//! Sizes that the rendering backends derive from the display surface.
use vstd::prelude::*;
use vstd::string::*;
use crate::methods::{decimal, decimal_string};

verus! {

/// The scaled-estimate backend raymarches at the display size divided by this.
pub const SCREEN_SCALING: u32 = 2;

/// Size of the scaled-estimate backend's offscreen target for a display of
/// `width` by `height` pixels: each side divided by `SCREEN_SCALING`,
/// rounded down.
pub fn scaled_target_size(width: u32, height: u32) -> (r: (u32, u32))
    ensures
        r.0 == width / SCREEN_SCALING,
        r.1 == height / SCREEN_SCALING,
{
    (width / SCREEN_SCALING, height / SCREEN_SCALING)
}


/// The display pass's fragment shader for an upsampling factor of `scale`:
/// it declares `SCALE` as `scale` and `HALF_SCALE` as half of it (both as
/// floats), then runs the edge-aware reconstruction of `DISPLAY_FRAGMENT_BODY`.
pub open spec fn display_fragment_text(scale: nat) -> Seq<char> {
    "#version 330\nconst float SCALE = "@ + decimal(scale) + ".0;\nconst float HALF_SCALE = "@
        + decimal(scale) + ".0 / 2.0;\n"@ + DISPLAY_FRAGMENT_BODY@
}

/// The edge-aware reconstruction. Each display pixel looks at the
/// low-resolution texel it falls in (`cmm`) and the four around it. By the
/// quadrant of the texel it falls in, it compares the two neighbours on
/// that side with the centre: where both differ from it and the two
/// opposite ones agree with it (an edge), a pixel far enough from the
/// corner takes the mean of the two neighbours; otherwise the centre passes
/// through. An empty texel (alpha 0) gives black. Every branch sets
/// `f_color`, and the pixel is made opaque at the end.
pub const DISPLAY_FRAGMENT_BODY: &'static str = "
in vec2 f_pos;
in vec2 f_texel;

uniform sampler2D tex;

out vec4 f_color;

void main() {
    vec2 top_left = floor(f_texel) * SCALE;
    vec2 top_right = top_left + vec2(SCALE, 0.0);
    vec2 bot_left = top_left + vec2(SCALE, SCALE);
    vec2 bot_right = top_left + vec2(SCALE, SCALE);

    vec2 quadrant = f_pos - (top_left + vec2(HALF_SCALE, HALF_SCALE));

    ivec2 pixel = ivec2(int(f_texel.x) - 1, int(f_texel.y) - 1);

    vec4 cbl = texelFetch(tex, pixel + ivec2(0, 0), 0);
    vec4 cbm = texelFetch(tex, pixel + ivec2(1, 0), 0);
    vec4 cbr = texelFetch(tex, pixel + ivec2(2, 0), 0);

    vec4 cml = texelFetch(tex, pixel + ivec2(0, 1), 0);
    vec4 cmm = texelFetch(tex, pixel + ivec2(1, 1), 0);
    vec4 cmr = texelFetch(tex, pixel + ivec2(2, 1), 0);

    vec4 ctl = texelFetch(tex, pixel + ivec2(0, 2), 0);
    vec4 ctm = texelFetch(tex, pixel + ivec2(1, 2), 0);
    vec4 ctr = texelFetch(tex, pixel + ivec2(2, 2), 0);

    if (cmm.a == 0.0) {
        f_color = vec4(0.0, 0.0, 0.0, 0.0);
    } else {
        if (quadrant.x < 0.0) {
            if (quadrant.y < 0.0) {
                vec2 dist = abs(f_pos - bot_left);
                if (cbm != cmm && cml != cmm && ctm == cmm && cmr == cmm) {
                    if ((dist.x + dist.y) / SCALE < 1.414) {
                        f_color = cmm;
                    } else {
                        f_color = (cbm + cml) / 2.0;
                    }
                } else {
                    f_color = cmm;
                }
            } else {
                vec2 dist = abs(f_pos - top_left);
                dist.x = HALF_SCALE - dist.x;
                if (ctm != cmm && cml != cmm && cbm == cmm && cmr == cmm) {
                    if (dist.x + dist.y < SCALE) {
                        f_color = cmm;
                    } else {
                        f_color = (ctm + cml) / 2.0;
                    }
                } else {
                    f_color = cmm;
                }
            }
        } else {
            if (quadrant.y < 0.0) {
                vec2 dist = abs(f_pos - bot_right);
                if (cbm != cmm && cmr != cmm && ctm == cmm && cml == cmm) {
                    dist.y = SCALE - dist.y;
                    if (abs(dist.y + dist.x) > HALF_SCALE) {
                        f_color = cmm;
                    } else {
                        f_color = (cbm + cmr) / 2.0;
                    }
                } else {
                    f_color = cmm;
                }
            } else {
                vec2 dist = abs(f_pos - top_right);
                dist.x = HALF_SCALE - dist.x;
                if (ctm != cmm && cmr != cmm && cbm == cmm && cml == cmm) {
                    if (dist.x + dist.y < SCALE) {
                        f_color = cmm;
                    } else {
                        f_color = (ctm + cmr) / 2.0;
                    }
                } else {
                    f_color = cmm;
                }
            }
        }
    }

    f_color.a = 1.0;
}
";

/// The display pass's vertex shader for a display of `width` by `height`
/// pixels and an upsampling factor of `scale`: it declares half the width,
/// half the height and the factor as floats, then maps each corner of the
/// full-screen quad to its low-resolution texel and to that texel's
/// position in display pixels.
pub open spec fn display_vertex_text(width: nat, height: nat, scale: nat) -> Seq<char> {
    "#version 330\nconst float HALF_WIDTH = "@ + decimal(width) + ".0 / 2.0;\nconst float HALF_HEIGHT = "@
        + decimal(height) + ".0 / 2.0;\nconst float SCALE = "@ + decimal(scale) + ".0;\n"@
        + DISPLAY_VERTEX_BODY@
}

pub const DISPLAY_VERTEX_BODY: &'static str = "
in vec2 pos;
out vec2 f_pos;
out vec2 f_texel;

void main() {
    gl_Position = vec4(pos, 0.1, 1.0);
    f_texel = vec2(floor((pos.x * HALF_WIDTH + HALF_WIDTH) / SCALE), floor((pos.y * HALF_HEIGHT + HALF_HEIGHT) / SCALE));
    f_pos = vec2(floor((pos.x * HALF_WIDTH + HALF_WIDTH) / SCALE) * SCALE, floor((pos.y * HALF_HEIGHT + HALF_HEIGHT) / SCALE) * SCALE);
}
";

/// The fragment shader of the scaled-estimate backend's display pass.
pub fn display_fragment_shader() -> (r: String)
    ensures
        r@ == display_fragment_text(SCREEN_SCALING as nat),
{
    let scale = decimal_string(SCREEN_SCALING);
    let mut s = String::from_str("#version 330\nconst float SCALE = ");
    s.append(scale.as_str());
    s.append(".0;\nconst float HALF_SCALE = ");
    s.append(scale.as_str());
    s.append(".0 / 2.0;\n");
    s.append(DISPLAY_FRAGMENT_BODY);
    s
}

/// The vertex shader of the scaled-estimate backend's display pass for a
/// display of `width` by `height` pixels.
pub fn display_vertex_shader(width: u32, height: u32) -> (r: String)
    ensures
        r@ == display_vertex_text(width as nat, height as nat, SCREEN_SCALING as nat),
{
    let w = decimal_string(width);
    let h = decimal_string(height);
    let scale = decimal_string(SCREEN_SCALING);
    let mut s = String::from_str("#version 330\nconst float HALF_WIDTH = ");
    s.append(w.as_str());
    s.append(".0 / 2.0;\nconst float HALF_HEIGHT = ");
    s.append(h.as_str());
    s.append(".0 / 2.0;\nconst float SCALE = ");
    s.append(scale.as_str());
    s.append(".0;\n");
    s.append(DISPLAY_VERTEX_BODY);
    s
}

} // verus!
