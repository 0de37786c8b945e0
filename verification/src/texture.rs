//! Textures: decoded pixel payloads uploaded once and sampled thereafter.
//!
//! The channel contract is fixed and explicit: a texture payload is RGBA,
//! one byte per channel, exactly `4 * width * height` bytes, and the
//! upload call receives exactly what the decoder produced — a mismatch
//! between decoded channel count and upload format corrupts sampling, so
//! the model rejects any payload of the wrong size outright.

use vstd::prelude::*;

use crate::context::GlContext;
use crate::context::MAX_TEXTURE_SIZE;
use crate::context::TextureRec;
use crate::errors::TextureError;
use crate::glsl::uniform_location_of;
use crate::shader::Shader;

verus! {

/// A decoded image: dimensions plus the raw RGBA payload, row-major.
pub struct PixelData {
    pub width: u32,
    pub height: u32,
    pub data: Vec<u8>,
}

impl PixelData {
    /// The payload holds exactly four bytes per pixel.
    pub open spec fn wf(self) -> bool {
        self.data@.len() == 4 * self.width * self.height
    }
}

/// What the model driver accepts for a full-image upload: both edges in
/// range and a payload of exactly four bytes per pixel.
pub open spec fn upload_ok(width: u32, height: u32, data: Seq<u8>) -> bool {
    &&& 1 <= width <= MAX_TEXTURE_SIZE
    &&& 1 <= height <= MAX_TEXTURE_SIZE
    &&& data.len() == 4 * width * height
}

/// What the decoder yields for a byte source: `None` when the bytes are
/// not a decodable image, else width, height and the RGBA payload.  The
/// result is a function of the bytes alone.
pub uninterp spec fn decoded_rgba(bytes: Seq<u8>) -> Option<(u32, u32, Seq<u8>)>;

/// Relies on image::load_from_memory and DynamicImage::to_rgba8: decoding
/// is deterministic in the encoded bytes.  Nothing is assumed about the
/// payload's size; the upload path checks it at run time.
#[verifier::external_body]
fn decode_rgba(bytes: &[u8]) -> (r: Result<(u32, u32, Vec<u8>), String>)
    ensures
        r is Ok <==> decoded_rgba(bytes@) is Some,
        (r matches Ok(t) ==> decoded_rgba(bytes@) matches Some(d) && t.0 == d.0 && t.1 == d.1
            && t.2@ == d.2),
{
    match image::load_from_memory(bytes) {
        Ok(img) => {
            let rgba = img.to_rgba8();
            let width = rgba.width();
            let height = rgba.height();
            Ok((width, height, rgba.into_raw()))
        },
        Err(e) => Err(e.to_string()),
    }
}

/// Exclusive owner of one texture object on the two-dimensional target.
/// No copy or clone: the handle cannot be duplicated, and `delete`
/// consumes the value.
#[derive(Debug)]
pub struct Texture {
    pub id: u32,
}

/// What creating a texture from a decoded payload does: a record is
/// allocated and bound on the activated unit either way; an acceptable
/// payload is uploaded whole and the texture unbound, an unacceptable one
/// is rejected as an upload error with the fresh texture left bound, as
/// the early-exit construction path leaves it.
pub open spec fn texture_new_post(
    pre: GlContext,
    post: GlContext,
    width: u32,
    height: u32,
    data: Seq<u8>,
    unit: u32,
    r: Result<Texture, TextureError>,
) -> bool {
    let h = (pre.textures@.len() + 1) as u32;
    &&& (r is Ok <==> upload_ok(width, height, data))
    &&& (r matches Ok(t) ==> t.id == h && t.id != 0 && post.texture_live(t.id)
        && post.texture_width(t.id) == width && post.texture_height(t.id) == height
        && post.texture_data(t.id) == data && post == (GlContext {
        textures: post.textures,
        active_texture_unit: unit,
        bound_texture: 0u32,
        ..pre
    }))
    &&& (r is Err ==> (r matches Err(TextureError::Upload)) && post.texture_live(h)
        && post.texture_width(h) == 0 && post.texture_height(h) == 0 && post.texture_data(h)
        == Seq::<u8>::empty() && post == (GlContext {
        textures: post.textures,
        active_texture_unit: unit,
        bound_texture: h,
        ..pre
    }))
    &&& post.textures@.len() == pre.textures@.len() + 1
    &&& forall|j: int| 0 <= j < pre.textures@.len() ==> post.textures@[j] == pre.textures@[j]
}

impl Texture {
    /// Allocates a texture object, activates `unit`, binds the texture,
    /// sets its sampling parameters, and uploads the payload whole.
    pub fn new(ctx: &mut GlContext, pixels: PixelData, unit: u32) -> (r: Result<
        Texture,
        TextureError,
    >)
        requires
            old(ctx).textures@.len() < u32::MAX as usize,
        ensures
            texture_new_post(
                *old(ctx),
                *final(ctx),
                pixels.width,
                pixels.height,
                pixels.data@,
                unit,
                r,
            ),
    {
        let h = (ctx.textures.len() + 1) as u32;
        ctx.textures.push(TextureRec { width: 0, height: 0, data: Vec::new(), live: true });
        ctx.active_texture_unit = unit;
        ctx.bound_texture = h;
        // Wrap and filter parameters are fixed by the model driver; the
        // upload below is the only observable payload effect.
        let width = pixels.width;
        let height = pixels.height;
        if width < 1 || width > MAX_TEXTURE_SIZE || height < 1 || height > MAX_TEXTURE_SIZE {
            return Err(TextureError::Upload);
        }
        proof {
            assert(4 * (width as int) * (height as int) <= 0x4000_0000int) by (nonlinear_arith)
                requires
                    1 <= width <= 16384,
                    1 <= height <= 16384,
            ;
        }
        let expected = 4 * (width as usize) * (height as usize);
        if pixels.data.len() != expected {
            return Err(TextureError::Upload);
        }
        let i = (h - 1) as usize;
        ctx.textures[i] = TextureRec { width, height, data: pixels.data, live: true };
        ctx.bound_texture = 0;
        Ok(Texture { id: h })
    }

    /// Decodes an encoded image source, then uploads it as `new` does.
    /// An undecodable source is a decode error and touches nothing.
    pub fn from_encoded(ctx: &mut GlContext, bytes: &[u8], unit: u32) -> (r: Result<
        Texture,
        TextureError,
    >)
        requires
            old(ctx).textures@.len() < u32::MAX as usize,
        ensures
            decoded_rgba(bytes@) is None ==> (r matches Err(TextureError::Decode(m)))
                && *final(ctx) == *old(ctx),
            (decoded_rgba(bytes@) matches Some(d) ==> texture_new_post(
                *old(ctx),
                *final(ctx),
                d.0,
                d.1,
                d.2,
                unit,
                r,
            )),
    {
        match decode_rgba(bytes) {
            Ok((width, height, data)) => Texture::new(ctx, PixelData { width, height, data }, unit),
            Err(message) => Err(TextureError::Decode(message)),
        }
    }

    /// Resolves `name` on the linked `shader`, activates it, and writes
    /// the sampler unit index into that uniform.  An absent name yields
    /// the sentinel location, which the driver ignores: no error, no
    /// value written.
    pub fn tex_unit(&self, ctx: &mut GlContext, shader: &Shader, name: &[u8], unit: u32)
        requires
            old(ctx).program_live(shader.id),
            old(ctx).program_linked(shader.id),
            old(ctx).wf(),
            unit <= i32::MAX as u32,
        ensures
            ({
                let us = old(ctx).program_uniforms(shader.id);
                let loc = uniform_location_of(us, name@);
                &&& loc >= 0 ==> final(ctx).program_values(shader.id) == old(ctx).program_values(
                    shader.id,
                ).update(loc, unit as i32)
                &&& loc == -1 ==> final(ctx).program_values(shader.id) == old(ctx).program_values(
                    shader.id,
                )
            }),
            final(ctx).program_uniforms(shader.id) == old(ctx).program_uniforms(shader.id),
            final(ctx).programs@.len() == old(ctx).programs@.len(),
            forall|j: int|
                0 <= j < old(ctx).programs@.len() && j != shader.id - 1 ==> final(ctx).programs@[j]
                    == old(ctx).programs@[j],
            final(ctx).program_live(shader.id),
            final(ctx).program_linked(shader.id),
            *final(ctx) == (GlContext {
                programs: final(ctx).programs,
                current_program: shader.id,
                ..*old(ctx)
            }),
            final(ctx).wf(),
    {
        let loc = shader.uniform_location(ctx, name);
        ctx.current_program = shader.id;
        if loc >= 0 {
            proof {
                crate::glsl::lemma_scan_uniform_index(
                    ctx.program_uniforms(shader.id),
                    name@,
                    0,
                );
            }
            let pi = (shader.id - 1) as usize;
            let l = loc as usize;
            ctx.programs[pi].values[l] = unit as i32;
        }
    }

    /// Makes this texture current on the two-dimensional target.
    pub fn bind(&self, ctx: &mut GlContext)
        ensures
            *final(ctx) == (GlContext { bound_texture: self.id, ..*old(ctx) }),
    {
        ctx.bound_texture = self.id;
    }

    /// Clears the two-dimensional target binding.
    pub fn unbind(&self, ctx: &mut GlContext)
        ensures
            *final(ctx) == (GlContext { bound_texture: 0, ..*old(ctx) }),
    {
        ctx.bound_texture = 0;
    }

    /// Releases the texture object; consuming `self` enforces the
    /// single-release discipline.  As the driver does, deleting a bound
    /// texture also clears the target binding.
    pub fn delete(self, ctx: &mut GlContext)
        requires
            old(ctx).texture_live(self.id),
        ensures
            final(ctx).textures@.len() == old(ctx).textures@.len(),
            final(ctx).is_texture(self.id),
            !final(ctx).texture_live(self.id),
            final(ctx).texture_data(self.id) == Seq::<u8>::empty(),
            forall|j: int|
                0 <= j < old(ctx).textures@.len() && j != self.id - 1
                    ==> final(ctx).textures@[j] == old(ctx).textures@[j],
            *final(ctx) == (GlContext {
                textures: final(ctx).textures,
                bound_texture: if old(ctx).bound_texture == self.id {
                    0u32
                } else {
                    old(ctx).bound_texture
                },
                ..*old(ctx)
            }),
    {
        let i = (self.id - 1) as usize;
        ctx.textures[i] = TextureRec { width: 0, height: 0, data: Vec::new(), live: false };
        if ctx.bound_texture == self.id {
            ctx.bound_texture = 0;
        }
    }
}

} // verus!
