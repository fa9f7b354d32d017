use crate::frame::lightness::{
    MAX_PIXELS,
    compute_perceived_lightness_percent,
    spec_lightness_percent,
};
use crate::frame::object::Object;
use vstd::prelude::*;

verus! {

/// How many levels short of the last one the reduction stops: the lowest
/// levels of a mipmap chain average colours too poorly to be used.
pub const FINAL_MIP_LEVEL: u32 = 4;

/// How long a submitted reduction may take, in nanoseconds.
pub const FENCES_TIMEOUT_NS: u64 = 1_000_000_000;

/// Pixel format tag of 8-bit XRGB frames.
pub const DRM_FORMAT_XRGB8888: u32 = 875713112;

/// Pixel format tag of 10-bit XRGB frames.
pub const DRM_FORMAT_XRGB2101010: u32 = 808669784;

/// The image formats in which a frame can be imported.
#[derive(Debug, PartialEq, Eq, Clone, Copy, Structural)]
pub enum Format {
    B8G8R8A8Unorm,
    A2R10G10B10UnormPack32,
}

/// Why no lightness came out of a frame.
#[derive(Debug, PartialEq, Eq, Clone, Copy, Structural)]
pub enum LumaError {
    /// Device or queue setup, or the memory import, failed.
    LumaUnavailable,
    /// The frame has more than one plane.
    UnsupportedFrameLayout,
    /// The frame's pixel format tag is not known.
    UnsupportedFormat,
}

/// The image format for a pixel format tag, where there is one.
pub open spec fn spec_map_drm_format(format: u32) -> Option<Format> {
    if format == DRM_FORMAT_XRGB8888 {
        Some(Format::B8G8R8A8Unorm)
    } else if format == DRM_FORMAT_XRGB2101010 {
        Some(Format::A2R10G10B10UnormPack32)
    } else {
        None
    }
}

/// The image format for a pixel format tag, where there is one: the two
/// XRGB formats of 8 and of 10 bits a colour are known.
#[verifier::when_used_as_spec(spec_map_drm_format)]
pub fn map_drm_format(format: u32) -> (mapped: Option<Format>)
    ensures
        mapped == spec_map_drm_format(format),
{
    if format == DRM_FORMAT_XRGB8888 {
        Some(Format::B8G8R8A8Unorm)
    } else if format == DRM_FORMAT_XRGB2101010 {
        Some(Format::A2R10G10B10UnormPack32)
    } else {
        None
    }
}

/// The format in which `frame` is imported. Frames of several planes are
/// refused first, then unknown format tags.
pub fn frame_format(frame: &Object) -> (checked: Result<Format, LumaError>)
    ensures
        frame.num_objects != 1 ==> checked == Err::<Format, LumaError>(
            LumaError::UnsupportedFrameLayout,
        ),
        frame.num_objects == 1 && spec_map_drm_format(frame.format) is None ==> checked == Err::<
            Format,
            LumaError,
        >(LumaError::UnsupportedFormat),
        frame.num_objects == 1 && spec_map_drm_format(frame.format) is Some ==> checked == Ok::<
            Format,
            LumaError,
        >(spec_map_drm_format(frame.format)->0),
{
    if frame.num_objects != 1 {
        return Err(LumaError::UnsupportedFrameLayout);
    }
    match map_drm_format(frame.format) {
        Some(format) => Ok(format),
        None => Err(LumaError::UnsupportedFormat),
    }
}

/// Whether memory type `index` may back a resource with `type_bits` and
/// offers all of `required`.
pub open spec fn memory_type_fits(
    type_bits: u32,
    property_flags: Seq<u32>,
    required: u32,
    index: int,
) -> bool {
    &&& 0 <= index < property_flags.len()
    &&& index < 32
    &&& (type_bits >> (index as u32)) & 1u32 == 1u32
    &&& property_flags[index] & required == required
}

/// The first memory type that a resource with `type_bits` accepts and whose
/// flags include all of `required`; `property_flags` holds the flags of the
/// device's memory types in their order.
pub fn find_memory_type_index(type_bits: u32, property_flags: &Vec<u32>, required: u32) -> (found:
    Option<u32>)
    ensures
        match found {
            Some(index) => {
                &&& memory_type_fits(type_bits, property_flags@, required, index as int)
                &&& forall|earlier: int|
                    0 <= earlier < index ==> !memory_type_fits(
                        type_bits,
                        property_flags@,
                        required,
                        earlier,
                    )
            },
            None => forall|index: int| !memory_type_fits(type_bits, property_flags@, required, index),
        },
{
    let mut index: u32 = 0;
    while index < 32 && (index as usize) < property_flags.len()
        invariant
            index <= 32,
            forall|earlier: int|
                0 <= earlier < index ==> !memory_type_fits(
                    type_bits,
                    property_flags@,
                    required,
                    earlier,
                ),
        decreases 32 - index,
    {
        if (type_bits >> index) & 1 == 1 && property_flags[index as usize] & required == required {
            return Some(index);
        }
        index += 1;
    }
    None
}

/// Two to the power `exponent`.
pub open spec fn two_to(exponent: nat) -> nat
    decreases exponent,
{
    if exponent == 0 {
        1
    } else {
        2 * two_to((exponent - 1) as nat)
    }
}

/// Whether `levels` is the base-2 logarithm of `size`, rounded up: the
/// least exponent whose power of two reaches `size`.
pub open spec fn is_ceil_log2(size: nat, levels: nat) -> bool {
    &&& size <= two_to(levels)
    &&& levels > 0 ==> two_to((levels - 1) as nat) < size
}

/// The number of mip levels of the work image for a frame of the given
/// size: the logarithm of its longer side, rounded up, and one level for
/// the frames of a single pixel, which still need one to be held in.
pub open spec fn is_mip_levels(width: u32, height: u32, levels: u32) -> bool {
    let longer = if width >= height {
        width
    } else {
        height
    };
    if longer <= 1 {
        levels == 1
    } else {
        is_ceil_log2(longer as nat, levels as nat)
    }
}

proof fn lemma_two_to_monotonic(low: nat, high: nat)
    requires
        low <= high,
    ensures
        two_to(low) <= two_to(high),
        two_to(low) >= 1,
    decreases high,
{
    if low < high {
        lemma_two_to_monotonic(low, (high - 1) as nat);
    } else if low > 0 {
        lemma_two_to_monotonic((low - 1) as nat, (low - 1) as nat);
    }
}

/// A size has one rounded-up logarithm only.
pub proof fn lemma_ceil_log2_unique(size: nat, first: nat, second: nat)
    requires
        is_ceil_log2(size, first),
        is_ceil_log2(size, second),
    ensures
        first == second,
{
    if first < second {
        lemma_two_to_monotonic(first, (second - 1) as nat);
    } else if second < first {
        lemma_two_to_monotonic(second, (first - 1) as nat);
    }
}

/// A work image has one mip level at least, and thirty-two at most.
pub proof fn lemma_mip_levels_bound(width: u32, height: u32, levels: u32)
    requires
        is_mip_levels(width, height, levels),
    ensures
        1 <= levels <= 32,
{
    lemma_two_to_32();
    if levels > 32 {
        lemma_two_to_monotonic(32, (levels - 1) as nat);
    }
}

/// The number of mip levels of the work image.
pub fn mip_levels(width: u32, height: u32) -> (levels: u32)
    ensures
        is_mip_levels(width, height, levels),
        1 <= levels <= 32,
{
    let longer: u64 = if width >= height {
        width as u64
    } else {
        height as u64
    };
    if longer <= 1 {
        return 1;
    }
    let mut levels: u32 = 0;
    let mut power: u64 = 1;
    while power < longer
        invariant
            longer <= 0xffff_ffff,
            power == two_to(levels as nat),
            levels > 0 ==> two_to((levels - 1) as nat) < longer,
            levels <= 32,
            power <= 0x1_0000_0000,
            levels == 32 ==> power >= 0x1_0000_0000,
        decreases 0x2_0000_0000 - power,
    {
        proof {
            lemma_two_to_monotonic(levels as nat, 32);
            lemma_two_to_32();
            if levels < 32 {
                lemma_two_to_monotonic((levels + 1) as nat, 32);
            }
        }
        power = power * 2;
        levels = levels + 1;
    }
    levels
}

proof fn lemma_two_to_32()
    ensures
        two_to(32) == 0x1_0000_0000,
{
    reveal_with_fuel(two_to, 33);
}

/// The extent of mip level `level` of a side of `size` pixels: halved once
/// per level, and never below one pixel after the first halving.
pub open spec fn spec_mip_extent(size: u32, level: nat) -> u32
    decreases level,
{
    if level == 0 {
        size
    } else {
        let above = spec_mip_extent(size, (level - 1) as nat);
        if above > 1 {
            above / 2
        } else {
            1
        }
    }
}

proof fn lemma_mip_extent_settles(size: u32, from: nat, level: nat)
    requires
        1 <= from <= level,
        spec_mip_extent(size, from) <= 1,
    ensures
        spec_mip_extent(size, level) == 1,
    decreases level,
{
    if from < level {
        lemma_mip_extent_settles(size, from, (level - 1) as nat);
    }
}

/// A level of an image that has a pixel has one too.
pub proof fn lemma_mip_extent_positive(size: u32, level: nat)
    requires
        size >= 1,
    ensures
        spec_mip_extent(size, level) >= 1,
        spec_mip_extent(size, level) <= size,
    decreases level,
{
    if level > 0 {
        lemma_mip_extent_positive(size, (level - 1) as nat);
    }
}

/// The extent of mip level `level` of a side of `size` pixels.
pub fn mip_extent(size: u32, level: u32) -> (extent: u32)
    ensures
        extent == spec_mip_extent(size, level as nat),
{
    let mut extent: u32 = size;
    let mut done: u32 = 0;
    while done < level
        invariant
            done <= level,
            extent == spec_mip_extent(size, done as nat),
        decreases level - done,
    {
        if done >= 1 && extent <= 1 {
            proof {
                lemma_mip_extent_settles(size, done as nat, level as nat);
            }
            return 1;
        }
        extent = if extent > 1 {
            extent / 2
        } else {
            1
        };
        done += 1;
    }
    extent
}

/// The mip level that is downloaded: `FINAL_MIP_LEVEL` short of `levels`,
/// and level 0 where there are no more levels than that.
pub open spec fn spec_target_mip_level(levels: u32) -> u32 {
    if levels >= FINAL_MIP_LEVEL {
        (levels - FINAL_MIP_LEVEL) as u32
    } else {
        0
    }
}

/// The mip level that is downloaded.
#[verifier::when_used_as_spec(spec_target_mip_level)]
pub fn target_mip_level(levels: u32) -> (level: u32)
    ensures
        level == spec_target_mip_level(levels),
{
    if levels >= FINAL_MIP_LEVEL {
        levels - FINAL_MIP_LEVEL
    } else {
        0
    }
}


proof fn lemma_two_to_add(low: nat, more: nat)
    ensures
        two_to(low + more) == two_to(low) * two_to(more),
    decreases more,
{
    if more == 0 {
        assert(two_to(low) * 1 == two_to(low));
    } else {
        lemma_two_to_add(low, (more - 1) as nat);
        assert(two_to(low + more) == 2 * two_to((low + more - 1) as nat));
        assert(2 * (two_to(low) * two_to((more - 1) as nat)) == two_to(low) * (2 * two_to(
            (more - 1) as nat,
        ))) by (nonlinear_arith);
    }
}

proof fn lemma_mip_extent_scaled(size: u32, level: nat)
    ensures
        spec_mip_extent(size, level) * two_to(level) <= size || spec_mip_extent(size, level)
            * two_to(level) <= two_to(level),
    decreases level,
{
    if level > 0 {
        let above = spec_mip_extent(size, (level - 1) as nat);
        let below = spec_mip_extent(size, level);
        let scale = two_to((level - 1) as nat);
        lemma_mip_extent_scaled(size, (level - 1) as nat);
        lemma_two_to_monotonic(0, (level - 1) as nat);
        if above > 1 {
            assert(below * (2 * scale) <= above * scale) by (nonlinear_arith)
                requires
                    below == above / 2,
                    above >= 0,
                    scale >= 0,
            ;
            assert(above * scale <= scale ==> above * scale <= 2 * scale);
        } else {
            assert(below * (2 * scale) == 2 * scale) by (nonlinear_arith)
                requires
                    below == 1,
            ;
        }
    } else {
        assert(spec_mip_extent(size, level) * two_to(level) == size) by (nonlinear_arith)
            requires
                spec_mip_extent(size, level) == size,
                two_to(level) == 1,
        ;
    }
}

/// The level that is downloaded has at most sixteen pixels a side.
pub proof fn lemma_target_extent_small(width: u32, height: u32, levels: u32, size: u32)
    requires
        is_mip_levels(width, height, levels),
        size == width || size == height,
    ensures
        spec_mip_extent(size, spec_target_mip_level(levels) as nat) <= 16,
{
    let target = spec_target_mip_level(levels) as nat;
    let extent = spec_mip_extent(size, target);
    let scale = two_to(target);
    lemma_mip_extent_scaled(size, target);
    lemma_two_to_monotonic(0, target);
    reveal_with_fuel(two_to, 5);
    if levels >= FINAL_MIP_LEVEL {
        lemma_two_to_add(target, 4);
        assert(two_to(levels as nat) == scale * 16);
        if width <= 1 && height <= 1 {
            assert(size <= 16 * scale);
        } else {
            assert(size <= two_to(levels as nat));
        }
        assert(extent <= 16) by (nonlinear_arith)
            requires
                extent * scale <= size || extent * scale <= scale,
                size <= 16 * scale,
                scale >= 1,
                extent >= 0,
        ;
    } else {
        lemma_two_to_monotonic(levels as nat, 3);
        assert(two_to(3) == 8);
        assert(size <= 8);
    }
}

/// The image that a command reads or changes.
#[derive(Debug, PartialEq, Eq, Clone, Copy, Structural)]
pub enum Image {
    /// The captured frame.
    Frame,
    /// The image that holds the mipmap chain.
    Work,
}

/// The layouts between which the barriers move an image.
#[derive(Debug, PartialEq, Eq, Clone, Copy, Structural)]
pub enum Layout {
    Undefined,
    TransferSrcOptimal,
    TransferDstOptimal,
}

/// One recorded step of the reduction.
#[derive(Debug, PartialEq, Eq, Clone, Copy, Structural)]
pub enum Command {
    /// Moves `level_count` levels of `image`, from `base_level` on, from
    /// one layout to another.
    Barrier { image: Image, base_level: u32, level_count: u32, old_layout: Layout, new_layout: Layout },
    /// Copies level `src_level` of `source`, scaled with a linear filter,
    /// into level `dst_level` of the work image.
    Blit {
        source: Image,
        src_level: u32,
        src_width: u32,
        src_height: u32,
        dst_level: u32,
        dst_width: u32,
        dst_height: u32,
    },
    /// Copies level `level` of the work image into the download buffer.
    CopyToBuffer { level: u32, width: u32, height: u32 },
}

/// The barrier that readies level `level` of the work image to be read.
pub open spec fn spec_read_barrier(level: u32) -> Command {
    Command::Barrier {
        image: Image::Work,
        base_level: level,
        level_count: 1,
        old_layout: Layout::TransferDstOptimal,
        new_layout: Layout::TransferSrcOptimal,
    }
}

/// The blit that fills level `level` of the work image from the one above.
pub open spec fn spec_level_blit(width: u32, height: u32, level: u32) -> Command {
    Command::Blit {
        source: Image::Work,
        src_level: (level - 1) as u32,
        src_width: spec_mip_extent(width, (level - 1) as nat),
        src_height: spec_mip_extent(height, (level - 1) as nat),
        dst_level: level,
        dst_width: spec_mip_extent(width, level as nat),
        dst_height: spec_mip_extent(height, level as nat),
    }
}

/// The `index`-th command that fills the work image of `levels` levels up
/// to level `target`: the work image is made writable, the frame is copied
/// into level 0, and each level from 1 to `target` is filled from the one
/// above, once that one is readable.
pub open spec fn spec_mipmap_command(
    width: u32,
    height: u32,
    levels: u32,
    index: int,
) -> Command {
    if index == 0 {
        Command::Barrier {
            image: Image::Work,
            base_level: 0,
            level_count: levels,
            old_layout: Layout::Undefined,
            new_layout: Layout::TransferDstOptimal,
        }
    } else if index == 1 {
        Command::Blit {
            source: Image::Frame,
            src_level: 0,
            src_width: width,
            src_height: height,
            dst_level: 0,
            dst_width: width,
            dst_height: height,
        }
    } else if index % 2 == 0 {
        spec_read_barrier((index / 2 - 1) as u32)
    } else {
        spec_level_blit(width, height, (index / 2) as u32)
    }
}

/// The `index`-th command of the whole recording: the frame is made
/// readable, the mipmaps are generated, the target level is made readable
/// and copied into the download buffer.
pub open spec fn spec_command(width: u32, height: u32, levels: u32, index: int) -> Command {
    let target = spec_target_mip_level(levels);
    if index == 0 {
        Command::Barrier {
            image: Image::Frame,
            base_level: 0,
            level_count: 1,
            old_layout: Layout::Undefined,
            new_layout: Layout::TransferSrcOptimal,
        }
    } else if index <= 2 * target + 2 {
        spec_mipmap_command(width, height, levels, index - 1)
    } else if index == 2 * target + 3 {
        spec_read_barrier(target)
    } else {
        Command::CopyToBuffer {
            level: target,
            width: spec_mip_extent(width, target as nat),
            height: spec_mip_extent(height, target as nat),
        }
    }
}

/// What has to be created for frames of one resolution.
#[derive(Debug, PartialEq, Eq, Clone, Copy, Structural)]
pub struct ImagePlan {
    pub width: u32,
    pub height: u32,
    /// Mip levels of the work image.
    pub mip_levels: u32,
    /// Bytes of the download buffer: four for each pixel of the target level.
    pub buffer_size: u32,
}

/// Size and mip levels of a work image.
#[derive(Debug, PartialEq, Eq, Clone, Copy, Structural)]
pub struct Resolution {
    pub width: u32,
    pub height: u32,
    pub mip_levels: u32,
}

/// The plan of the reduction: which work image and download buffer exist,
/// and what is recorded for each frame.
#[derive(Debug, PartialEq, Eq, Clone, Copy, Structural)]
pub struct Vulkan {
    /// The work image, once it exists.
    pub image_resolution: Option<Resolution>,
}

impl Vulkan {
    /// A plan with no work image yet.
    pub fn new() -> (plan: Self)
        ensures
            plan.image_resolution is None,
    {
        Self { image_resolution: None }
    }

    /// The work image and download buffer for frames of `width` by
    /// `height`.
    pub open spec fn spec_image_plan(width: u32, height: u32, plan: ImagePlan) -> bool {
        let target = spec_target_mip_level(plan.mip_levels) as nat;
        &&& plan.width == width
        &&& plan.height == height
        &&& is_mip_levels(width, height, plan.mip_levels)
        &&& plan.buffer_size == 4 * (spec_mip_extent(width, target) * spec_mip_extent(
            height,
            target,
        ))
    }

    /// What to create before frames of `frame`'s resolution can be
    /// reduced, or `None` where the work image already has that resolution.
    pub fn init_image(&self, frame: &Object) -> (plan: Option<ImagePlan>)
        ensures
            (self.image_resolution matches Some(r) && r.width == frame.width && r.height
                == frame.height) <==> plan is None,
            plan matches Some(p) ==> Self::spec_image_plan(frame.width, frame.height, p),
    {
        if let Some(resolution) = self.image_resolution {
            if resolution.width == frame.width && resolution.height == frame.height {
                return None;
            }
        }
        let levels = mip_levels(frame.width, frame.height);
        let target = target_mip_level(levels);
        let final_width = mip_extent(frame.width, target);
        let final_height = mip_extent(frame.height, target);
        proof {
            lemma_target_extent_small(frame.width, frame.height, levels, frame.width);
            lemma_target_extent_small(frame.width, frame.height, levels, frame.height);
            assert(final_width * final_height <= 256) by (nonlinear_arith)
                requires
                    0 <= final_width <= 16,
                    0 <= final_height <= 16,
            ;
        }
        Some(
            ImagePlan {
                width: frame.width,
                height: frame.height,
                mip_levels: levels,
                buffer_size: 4 * (final_width * final_height),
            },
        )
    }

    /// Notes that the work image and the download buffer of `plan` exist.
    pub fn image_created(&mut self, plan: &ImagePlan)
        ensures
            final(self).image_resolution == Some(
                Resolution { width: plan.width, height: plan.height, mip_levels: plan.mip_levels },
            ),
    {
        self.image_resolution = Some(
            Resolution { width: plan.width, height: plan.height, mip_levels: plan.mip_levels },
        );
    }

    /// The commands that fill the work image down to the target level,
    /// with that level and its extents.
    pub fn generate_mipmaps(&self) -> (generated: (Vec<Command>, u32, u32, u32))
        requires
            self.image_resolution matches Some(r) && r.mip_levels <= 32,
        ensures
            ({
                let Resolution { width, height, mip_levels: levels } = self.image_resolution->0;
                let (commands, target, mip_width, mip_height) = generated;
                &&& target == spec_target_mip_level(levels)
                &&& mip_width == spec_mip_extent(width, target as nat)
                &&& mip_height == spec_mip_extent(height, target as nat)
                &&& commands@.len() == 2 * target + 2
                &&& forall|index: int|
                    0 <= index < commands@.len() ==> commands@[index] == spec_mipmap_command(
                        width,
                        height,
                        levels,
                        index,
                    )
            }),
    {
        let Resolution { width, height, mip_levels: levels } = self.image_resolution.unwrap();
        let mut mip_width = width;
        let mut mip_height = height;
        let mut commands: Vec<Command> = Vec::new();
        commands.push(
            Command::Barrier {
                image: Image::Work,
                base_level: 0,
                level_count: levels,
                old_layout: Layout::Undefined,
                new_layout: Layout::TransferDstOptimal,
            },
        );
        commands.push(
            Command::Blit {
                source: Image::Frame,
                src_level: 0,
                src_width: mip_width,
                src_height: mip_height,
                dst_level: 0,
                dst_width: mip_width,
                dst_height: mip_height,
            },
        );
        let target = target_mip_level(levels);
        let mut level: u32 = 1;
        while level <= target
            invariant
                1 <= level <= target + 1,
                target <= 32,
                mip_width == spec_mip_extent(width, (level - 1) as nat),
                mip_height == spec_mip_extent(height, (level - 1) as nat),
                commands@.len() == 2 * level,
                forall|index: int|
                    0 <= index < commands@.len() ==> commands@[index] == spec_mipmap_command(
                        width,
                        height,
                        levels,
                        index,
                    ),
            decreases target + 1 - level,
        {
            commands.push(
                Command::Barrier {
                    image: Image::Work,
                    base_level: level - 1,
                    level_count: 1,
                    old_layout: Layout::TransferDstOptimal,
                    new_layout: Layout::TransferSrcOptimal,
                },
            );
            let next_mip_width = if mip_width > 1 {
                mip_width / 2
            } else {
                1
            };
            let next_mip_height = if mip_height > 1 {
                mip_height / 2
            } else {
                1
            };
            commands.push(
                Command::Blit {
                    source: Image::Work,
                    src_level: level - 1,
                    src_width: mip_width,
                    src_height: mip_height,
                    dst_level: level,
                    dst_width: next_mip_width,
                    dst_height: next_mip_height,
                },
            );
            mip_width = next_mip_width;
            mip_height = next_mip_height;
            level += 1;
        }
        (commands, target, mip_width, mip_height)
    }

    /// The commands that bring level `mip_level` of the work image, of the
    /// given extents, into the download buffer.
    pub fn copy_mipmap(mip_level: u32, width: u32, height: u32) -> (commands: Vec<Command>)
        ensures
            commands@ == seq![
                spec_read_barrier(mip_level),
                Command::CopyToBuffer { level: mip_level, width, height },
            ],
    {
        let mut commands: Vec<Command> = Vec::new();
        commands.push(
            Command::Barrier {
                image: Image::Work,
                base_level: mip_level,
                level_count: 1,
                old_layout: Layout::TransferDstOptimal,
                new_layout: Layout::TransferSrcOptimal,
            },
        );
        commands.push(Command::CopyToBuffer { level: mip_level, width, height });
        commands
    }

    /// Everything that is recorded for one frame, in order, and the
    /// number of pixels that it leaves in the download buffer.
    pub fn record(&self) -> (recorded: (Vec<Command>, u32))
        requires
            self.image_resolution matches Some(r) && is_mip_levels(r.width, r.height, r.mip_levels),
        ensures
            ({
                let Resolution { width, height, mip_levels: levels } = self.image_resolution->0;
                let target = spec_target_mip_level(levels);
                let (commands, pixels) = recorded;
                &&& commands@.len() == 2 * target + 5
                &&& forall|index: int|
                    0 <= index < commands@.len() ==> commands@[index] == spec_command(
                        width,
                        height,
                        levels,
                        index,
                    )
                &&& pixels == spec_mip_extent(width, target as nat) * spec_mip_extent(
                    height,
                    target as nat,
                )
                &&& pixels <= 256
                &&& width >= 1 && height >= 1 ==> pixels >= 1
            }),
    {
        let Resolution { width, height, mip_levels: levels } = self.image_resolution.unwrap();
        proof {
            lemma_mip_levels_bound(width, height, levels);
        }
        let mut commands: Vec<Command> = Vec::new();
        commands.push(
            Command::Barrier {
                image: Image::Frame,
                base_level: 0,
                level_count: 1,
                old_layout: Layout::Undefined,
                new_layout: Layout::TransferSrcOptimal,
            },
        );
        let (mut mipmaps, target, mip_width, mip_height) = self.generate_mipmaps();
        let ghost generated = mipmaps@;
        commands.append(&mut mipmaps);
        let mut copy = Self::copy_mipmap(target, mip_width, mip_height);
        commands.append(&mut copy);
        proof {
            lemma_target_extent_small(width, height, levels, width);
            lemma_target_extent_small(width, height, levels, height);
            assert(mip_width * mip_height <= 256) by (nonlinear_arith)
                requires
                    0 <= mip_width <= 16,
                    0 <= mip_height <= 16,
            ;
            if width >= 1 && height >= 1 {
                lemma_mip_extent_positive(width, target as nat);
                lemma_mip_extent_positive(height, target as nat);
                assert(mip_width * mip_height >= 1) by (nonlinear_arith)
                    requires
                        mip_width >= 1,
                        mip_height >= 1,
                ;
            }
            assert forall|index: int| 0 <= index < commands@.len() implies commands@[index]
                == spec_command(width, height, levels, index) by {
                if 1 <= index <= 2 * target + 2 {
                    assert(commands@[index] == generated[index - 1]);
                }
            }
        }
        (commands, mip_width * mip_height)
    }

    /// The perceived lightness of what the recording left in the download
    /// buffer, which holds `pixels` pixels of four bytes. Without a pixel,
    /// or with fewer bytes than the pixels need, there is none.
    pub fn luma_percent(rgbas: &[u8], pixels: u32) -> (luma: Result<u8, LumaError>)
        ensures
            pixels == 0 || rgbas@.len() < 4 * pixels ==> luma == Err::<u8, LumaError>(
                LumaError::LumaUnavailable,
            ),
            pixels >= 1 && rgbas@.len() >= 4 * pixels ==> luma is Ok && luma->Ok_0 <= 100
                && spec_lightness_percent(rgbas@, true, pixels as nat, luma->Ok_0 as int),
    {
        if pixels == 0 || rgbas.len() / 4 < pixels as usize {
            return Err(LumaError::LumaUnavailable);
        }
        Ok(compute_perceived_lightness_percent(rgbas, true, pixels as usize))
    }
}

/// The first memory type that `type_bits` allows: the position of its
/// lowest set bit, and 32 where no bit is set.
pub fn first_memory_type(type_bits: u32) -> (index: u32)
    ensures
        index == vstd::std_specs::bits::u32_trailing_zeros(type_bits),
{
    type_bits.trailing_zeros()
}

} // verus!
