//! The decisions the renderer makes about the Vulkan device it is given:
//! memory type, physical device and queue family, surface format, extent,
//! image count, composite alpha, debug layers and uniform capacity. Vulkan
//! enums and flag sets are taken by their raw values.

use vstd::prelude::*;
use crate::scene::RenderStyle;

verus! {

/// Whether flag set `flags` has every flag of `wanted`.
pub open spec fn has_flags(flags: u32, wanted: u32) -> bool {
    flags & wanted == wanted
}

fn contains_flags(flags: u32, wanted: u32) -> (r: bool)
    ensures
        r == has_flags(flags, wanted),
{
    flags & wanted == wanted
}

/// Whether bit `i` of `bits` is set.
pub open spec fn bit_set(bits: u32, i: int) -> bool {
    (bits >> (i as u32)) & 1 == 1
}

proof fn lemma_shift_mask(bits: u32, i: u32)
    requires
        i < 32,
    ensures
        (bits & (1u32 << i) != 0) == ((bits >> i) & 1 == 1),
{
    assert((bits & (1u32 << i) != 0) == ((bits >> i) & 1 == 1)) by (bit_vector)
        requires
            i < 32,
    ;
}

/// No memory type is compatible with the requirements and offers the
/// wanted properties.
#[derive(Clone, Copy, Debug, PartialEq, Eq, Structural)]
pub struct NoSuitableMemoryType;

/// Memory type `i` can back a resource allowing `type_bits` and offers `wanted`.
pub open spec fn suitable_memory(type_flags: Seq<u32>, type_bits: u32, wanted: u32, i: int) -> bool {
    bit_set(type_bits, i) && has_flags(type_flags[i], wanted)
}

/// The first memory type whose bit is set in `type_bits` and whose
/// property flags include all of `wanted`.
pub fn find_memory_type(type_flags: &[u32], type_bits: u32, wanted: u32) -> (r: Result<u32, NoSuitableMemoryType>)
    requires
        type_flags.len() <= 32,
    ensures
        match r {
            Ok(i) => i < type_flags.len() && suitable_memory(type_flags@, type_bits, wanted, i as int)
                && forall|j: int| 0 <= j < i ==> !#[trigger] suitable_memory(type_flags@, type_bits, wanted, j),
            Err(_) => forall|j: int|
                0 <= j < type_flags.len() ==> !#[trigger] suitable_memory(type_flags@, type_bits, wanted, j),
        },
{
    let mut index: usize = 0;
    while index < type_flags.len()
        invariant
            index <= type_flags.len() <= 32,
            forall|j: int| 0 <= j < index ==> !#[trigger] suitable_memory(type_flags@, type_bits, wanted, j),
        decreases type_flags.len() - index,
    {
        let i = index as u32;
        proof {
            lemma_shift_mask(type_bits, i);
        }
        let supported = type_bits & (1u32 << i) != 0;
        if supported && contains_flags(type_flags[index], wanted) {
            return Ok(i);
        }
        index += 1;
    }
    Err(NoSuitableMemoryType)
}

/// Physical device types, by raw value.
pub const DEVICE_TYPE_INTEGRATED_GPU: i32 = 1;
pub const DEVICE_TYPE_DISCRETE_GPU: i32 = 2;

/// Queue flag: graphics.
pub const QUEUE_GRAPHICS: u32 = 1;

/// What the device choice reads of one queue family.
#[derive(Clone, Copy, Debug, PartialEq, Eq, Structural)]
pub struct QueueFamily {
    pub queue_flags: u32,
    pub supports_present: bool,
}

/// What the device choice reads of one physical device.
pub struct DeviceCandidate {
    pub device_type: i32,
    pub families: Vec<QueueFamily>,
    /// The surface offers at least one format on this device.
    pub has_formats: bool,
    /// The surface offers at least one present mode on this device.
    pub has_present_modes: bool,
}

/// Preference of a device type: discrete over integrated over the rest.
pub open spec fn device_score(device_type: i32) -> int {
    if device_type == DEVICE_TYPE_DISCRETE_GPU {
        2
    } else if device_type == DEVICE_TYPE_INTEGRATED_GPU {
        1
    } else {
        0
    }
}

fn score(device_type: i32) -> (s: i32)
    ensures
        s == device_score(device_type),
{
    if device_type == DEVICE_TYPE_DISCRETE_GPU {
        2
    } else if device_type == DEVICE_TYPE_INTEGRATED_GPU {
        1
    } else {
        0
    }
}

/// A family can draw and present to the surface, on a device whose surface
/// offers formats and present modes.
pub open spec fn usable_family(d: &DeviceCandidate, f: int) -> bool {
    has_flags(d.families@[f].queue_flags, QUEUE_GRAPHICS) && d.families@[f].supports_present
        && d.has_formats && d.has_present_modes
}

/// No physical device has a family that can draw and present.
#[derive(Clone, Copy, Debug, PartialEq, Eq, Structural)]
pub struct NoSuitableDevice;

fn first_usable_family(d: &DeviceCandidate) -> (r: Option<usize>)
    ensures
        match r {
            Some(f) => f < d.families.len() && usable_family(d, f as int) && forall|g: int|
                0 <= g < f ==> !usable_family(d, g),
            None => forall|g: int| 0 <= g < d.families.len() ==> !usable_family(d, g),
        },
{
    let mut f: usize = 0;
    while f < d.families.len()
        invariant
            f <= d.families.len(),
            forall|g: int| 0 <= g < f ==> !usable_family(d, g),
        decreases d.families.len() - f,
    {
        let fam = d.families[f];
        if contains_flags(fam.queue_flags, QUEUE_GRAPHICS) && fam.supports_present && d.has_formats
            && d.has_present_modes {
            return Some(f);
        }
        f += 1;
    }
    None
}

/// Choose the physical device and queue family to render with: among the
/// devices with a usable family, the first of highest score, with its
/// first usable family.
pub fn pick_physical_device(devices: &[DeviceCandidate]) -> (r: Result<(usize, usize), NoSuitableDevice>)
    ensures
        match r {
            Ok((d, f)) => {
                &&& d < devices.len()
                &&& f < devices@[d as int].families.len()
                &&& usable_family(&devices@[d as int], f as int)
                &&& forall|g: int| 0 <= g < f ==> !usable_family(&devices@[d as int], g)
                &&& forall|e: int, g: int|
                    0 <= e < devices.len() && 0 <= g < devices@[e].families.len() && usable_family(&devices@[e], g)
                        ==> device_score(devices@[e].device_type) < device_score(devices@[d as int].device_type)
                        || (device_score(devices@[e].device_type) == device_score(devices@[d as int].device_type) && d <= e)
            },
            Err(_) => forall|e: int, g: int|
                0 <= e < devices.len() && 0 <= g < devices@[e].families.len() ==> !usable_family(&devices@[e], g),
        },
{
    let mut best: Option<(usize, usize, i32)> = None;
    let mut d: usize = 0;
    while d < devices.len()
        invariant
            d <= devices.len(),
            match best {
                Some((bd, bf, bs)) => {
                    &&& bd < d
                    &&& bf < devices@[bd as int].families.len()
                    &&& usable_family(&devices@[bd as int], bf as int)
                    &&& forall|g: int| 0 <= g < bf ==> !usable_family(&devices@[bd as int], g)
                    &&& bs == device_score(devices@[bd as int].device_type)
                    &&& forall|e: int, g: int|
                        0 <= e < d && 0 <= g < devices@[e].families.len() && usable_family(&devices@[e], g)
                            ==> device_score(devices@[e].device_type) < bs || (device_score(devices@[e].device_type) == bs && bd <= e)
                },
                None => forall|e: int, g: int|
                    0 <= e < d && 0 <= g < devices@[e].families.len() ==> !usable_family(&devices@[e], g),
            },
        decreases devices.len() - d,
    {
        match first_usable_family(&devices[d]) {
            Some(f) => {
                let s = score(devices[d].device_type);
                let better = match best {
                    None => true,
                    Some((_, _, bs)) => s > bs,
                };
                if better {
                    best = Some((d, f, s));
                }
            },
            None => {},
        }
        d += 1;
    }
    match best {
        Some((bd, bf, _)) => Ok((bd, bf)),
        None => Err(NoSuitableDevice),
    }
}

/// A surface format: raw format and color space.
#[derive(Clone, Copy, Debug, PartialEq, Eq, Structural)]
pub struct SurfaceFormat {
    pub format: i32,
    pub color_space: i32,
}

/// `B8G8R8A8_UNORM` in the sRGB nonlinear color space.
pub open spec fn preferred_format() -> SurfaceFormat {
    SurfaceFormat { format: 44, color_space: 0 }
}

/// The surface format to use: the preferred one when offered, else the
/// first offered.
pub fn pick_format(formats: &[SurfaceFormat]) -> (f: SurfaceFormat)
    requires
        formats.len() > 0,
    ensures
        formats@.contains(preferred_format()) ==> f == preferred_format(),
        !formats@.contains(preferred_format()) ==> f == formats@[0],
{
    let preferred = SurfaceFormat { format: 44, color_space: 0 };
    let mut i: usize = 0;
    while i < formats.len()
        invariant
            i <= formats.len(),
            preferred == preferred_format(),
            forall|j: int| 0 <= j < i ==> formats@[j] != preferred,
        decreases formats.len() - i,
    {
        if formats[i] == preferred {
            assert(formats@[i as int] == preferred_format());
            return preferred;
        }
        i += 1;
    }
    formats[0]
}

/// A two-dimensional extent in pixels.
#[derive(Clone, Copy, Debug, PartialEq, Eq, Structural)]
pub struct Extent {
    pub width: u32,
    pub height: u32,
}

/// What the swapchain setup reads of the surface capabilities.
#[derive(Clone, Copy, Debug, PartialEq, Eq, Structural)]
pub struct SurfaceCapabilities {
    pub current_extent: Extent,
    pub min_image_extent: Extent,
    pub max_image_extent: Extent,
    pub min_image_count: u32,
    pub max_image_count: u32,
    pub supported_composite_alpha: u32,
}

pub open spec fn clamp_spec(x: u32, lo: u32, hi: u32) -> u32 {
    if x < lo {
        lo
    } else if x > hi {
        hi
    } else {
        x
    }
}

fn clamp_u32(x: u32, lo: u32, hi: u32) -> (r: u32)
    requires
        lo <= hi,
    ensures
        r == clamp_spec(x, lo, hi),
{
    if x < lo {
        lo
    } else if x > hi {
        hi
    } else {
        x
    }
}

/// The swapchain extent: the surface's current extent when it is fixed
/// (width not `u32::MAX`), else the window size clamped to the supported
/// range.
pub fn pick_extent(caps: &SurfaceCapabilities, window: Extent) -> (e: Extent)
    requires
        caps.current_extent.width == u32::MAX ==> caps.min_image_extent.width
            <= caps.max_image_extent.width && caps.min_image_extent.height <= caps.max_image_extent.height,
    ensures
        caps.current_extent.width != u32::MAX ==> e == caps.current_extent,
        caps.current_extent.width == u32::MAX ==> e == (Extent {
            width: clamp_spec(window.width, caps.min_image_extent.width, caps.max_image_extent.width),
            height: clamp_spec(window.height, caps.min_image_extent.height, caps.max_image_extent.height),
        }),
{
    if caps.current_extent.width != u32::MAX {
        caps.current_extent
    } else {
        Extent {
            width: clamp_u32(window.width, caps.min_image_extent.width, caps.max_image_extent.width),
            height: clamp_u32(window.height, caps.min_image_extent.height, caps.max_image_extent.height),
        }
    }
}

/// The number of swapchain images to ask for: one more than the minimum
/// (saturating), capped by the maximum when there is one (nonzero).
pub fn image_count(caps: &SurfaceCapabilities) -> (n: u32)
    ensures
        ({
            let count = if caps.min_image_count == u32::MAX {
                u32::MAX as int
            } else {
                caps.min_image_count + 1
            };
            n == if caps.max_image_count > 0 && count > caps.max_image_count {
                caps.max_image_count as int
            } else {
                count
            }
        }),
{
    let count = if caps.min_image_count == u32::MAX {
        u32::MAX
    } else {
        caps.min_image_count + 1
    };
    if caps.max_image_count > 0 && count > caps.max_image_count {
        caps.max_image_count
    } else {
        count
    }
}

/// Composite alpha modes, by raw flag.
pub const ALPHA_OPAQUE: u32 = 1;
pub const ALPHA_PRE_MULTIPLIED: u32 = 2;
pub const ALPHA_POST_MULTIPLIED: u32 = 4;
pub const ALPHA_INHERIT: u32 = 8;

/// The composite alpha mode: the first supported of opaque, premultiplied,
/// postmultiplied and inherit; opaque when none is.
pub fn pick_composite_alpha(supported: u32) -> (a: u32)
    ensures
        a == if has_flags(supported, ALPHA_OPAQUE) {
            ALPHA_OPAQUE
        } else if has_flags(supported, ALPHA_PRE_MULTIPLIED) {
            ALPHA_PRE_MULTIPLIED
        } else if has_flags(supported, ALPHA_POST_MULTIPLIED) {
            ALPHA_POST_MULTIPLIED
        } else if has_flags(supported, ALPHA_INHERIT) {
            ALPHA_INHERIT
        } else {
            ALPHA_OPAQUE
        },
{
    if contains_flags(supported, ALPHA_OPAQUE) {
        ALPHA_OPAQUE
    } else if contains_flags(supported, ALPHA_PRE_MULTIPLIED) {
        ALPHA_PRE_MULTIPLIED
    } else if contains_flags(supported, ALPHA_POST_MULTIPLIED) {
        ALPHA_POST_MULTIPLIED
    } else if contains_flags(supported, ALPHA_INHERIT) {
        ALPHA_INHERIT
    } else {
        ALPHA_OPAQUE
    }
}

/// The name held in a fixed-size, nul-terminated name field: the bytes
/// before the first nul.
pub open spec fn c_name(field: Seq<u8>) -> Seq<u8>
    decreases field.len(),
{
    if field.len() == 0 || field[0] == 0 {
        Seq::empty()
    } else {
        seq![field[0]] + c_name(field.drop_first())
    }
}

/// Whether the name in a nul-terminated name field equals `expected`
/// (given without its nul).
pub fn extension_name_eq(field: &[u8], expected: &[u8]) -> (r: bool)
    requires
        field@.contains(0u8),
    ensures
        r == (c_name(field@) == expected@),
{
    let mut i: usize = 0;
    while i < field.len() && field[i] != 0
        invariant
            i <= field.len(),
            field@.contains(0u8),
            forall|j: int| 0 <= j < i ==> field@[j] != 0,
            i <= expected.len() ==> forall|j: int| 0 <= j < i ==> field@[j] == expected@[j],
            i <= expected.len(),
        decreases field.len() - i,
    {
        if i >= expected.len() || field[i] != expected[i] {
            proof {
                lemma_c_name_prefix(field@, i as int);
                if i >= expected.len() {
                    assert(c_name(field@).len() > i);
                } else {
                    assert(c_name(field@)[i as int] == field@[i as int]);
                }
            }
            return false;
        }
        i += 1;
    }
    proof {
        if i == field.len() {
            let k = choose|k: int| 0 <= k < field.len() && field@[k] == 0u8;
            assert(false);
        }
        lemma_c_name_prefix(field@, i as int);
        if i == expected.len() {
            assert(c_name(field@) =~= expected@);
        } else {
            assert(c_name(field@).len() == i);
        }
    }
    i == expected.len()
}

/// Where the first nul is at or after `i`, the name starts with the bytes
/// before `i`; a nul at `i` ends the name there.
proof fn lemma_c_name_prefix(field: Seq<u8>, i: int)
    requires
        0 <= i <= field.len(),
        forall|j: int| 0 <= j < i ==> field[j] != 0,
    ensures
        c_name(field).len() >= i,
        forall|j: int| 0 <= j < i ==> #[trigger] c_name(field)[j] == field[j],
        i < field.len() && field[i] == 0 ==> c_name(field).len() == i,
        i < field.len() && field[i] != 0 ==> c_name(field).len() > i && c_name(field)[i] == field[i],
    decreases i,
{
    if i > 0 {
        lemma_c_name_prefix(field.drop_first(), i - 1);
        assert forall|j: int| 0 <= j < i implies #[trigger] c_name(field)[j] == field[j] by {
            if j > 0 {
                assert(c_name(field)[j] == c_name(field.drop_first())[j - 1]);
            }
        }
    }
}

/// Whether any nul-terminated name field among `fields` equals `expected`.
pub fn any_name_eq(fields: &[Vec<u8>], expected: &[u8]) -> (r: bool)
    requires
        forall|k: int| 0 <= k < fields.len() ==> (#[trigger] fields@[k])@.contains(0u8),
    ensures
        r == exists|k: int| 0 <= k < fields.len() && c_name(#[trigger] fields@[k]@) == expected@,
{
    let mut k: usize = 0;
    while k < fields.len()
        invariant
            k <= fields.len(),
            forall|k: int| 0 <= k < fields.len() ==> (#[trigger] fields@[k])@.contains(0u8),
            forall|j: int| 0 <= j < k ==> c_name(#[trigger] fields@[j]@) != expected@,
        decreases fields.len() - k,
    {
        if extension_name_eq(fields[k].as_slice(), expected) {
            return true;
        }
        k += 1;
    }
    false
}

/// Whether validation can be enabled: the debug-utils extension and the
/// validation layer are both offered.
pub fn debug_utils_available(
    extensions: &[Vec<u8>],
    layers: &[Vec<u8>],
    extension: &[u8],
    layer: &[u8],
) -> (r: bool)
    requires
        forall|k: int| 0 <= k < extensions.len() ==> (#[trigger] extensions@[k])@.contains(0u8),
        forall|k: int| 0 <= k < layers.len() ==> (#[trigger] layers@[k])@.contains(0u8),
    ensures
        r == ((exists|k: int| 0 <= k < extensions.len() && c_name(#[trigger] extensions@[k]@) == extension@)
            && (exists|k: int| 0 <= k < layers.len() && c_name(#[trigger] layers@[k]@) == layer@)),
{
    let has_extension = any_name_eq(extensions, extension);
    let has_layer = any_name_eq(layers, layer);
    has_extension && has_layer
}

/// Scene instances the renderer supports at most.
pub const MAX_INSTANCES: usize = 256;

/// Bytes of one instance's uniform slot: two 4x4 float matrices.
pub const INSTANCE_SLOT_BYTES: usize = 128;

/// Instance slots of the uniform buffer on a device whose uniform range is
/// `max_uniform_buffer_range` bytes.
pub fn instance_capacity(max_uniform_buffer_range: u32) -> (c: usize)
    ensures
        c == if max_uniform_buffer_range / 128 < 256 {
            max_uniform_buffer_range as int / 128
        } else {
            256
        },
        c <= MAX_INSTANCES,
        c * INSTANCE_SLOT_BYTES <= max_uniform_buffer_range,
{
    let slots = max_uniform_buffer_range as usize / INSTANCE_SLOT_BYTES;
    if slots < MAX_INSTANCES {
        slots
    } else {
        MAX_INSTANCES
    }
}

/// Too many matrices for the uniform buffer.
#[derive(Clone, Copy, Debug, PartialEq, Eq, Structural)]
pub struct TooManyInstances;

/// Whether `matrix_count` matrices (two per instance) fit a uniform buffer
/// of `capacity` instance slots.
pub fn check_uniform_write(matrix_count: usize, capacity: usize) -> (r: Result<(), TooManyInstances>)
    ensures
        r is Ok <==> matrix_count <= 2 * capacity,
{
    if capacity <= usize::MAX / 2 && matrix_count > capacity * 2 {
        Err(TooManyInstances)
    } else {
        Ok(())
    }
}

/// The next frame-in-flight slot (two frames in flight).
pub fn next_frame_slot(slot: usize) -> (n: usize)
    requires
        slot < 2,
    ensures
        n == (slot + 1) % 2,
        n < 2,
        n != slot,
{
    (slot + 1) % 2
}

/// A resize to a zero-sized window (minimized or unmapped) is ignored.
pub fn resize_applies(size: Extent) -> (b: bool)
    ensures
        b == (size.width != 0 && size.height != 0),
{
    size.width != 0 && size.height != 0
}

/// Polygon modes and cull modes, by raw value.
pub const POLYGON_MODE_FILL: i32 = 0;
pub const POLYGON_MODE_LINE: i32 = 1;
pub const CULL_MODE_NONE: u32 = 0;
pub const CULL_MODE_BACK: u32 = 2;

/// The rasterizer settings of a render style's pipeline, as (polygon mode,
/// cull mode): solid fills triangles and culls back faces; wireframe draws
/// edges only and culls nothing, so every edge shows.
pub fn raster_mode(style: RenderStyle) -> (r: (i32, u32))
    ensures
        style == RenderStyle::Solid ==> r == (POLYGON_MODE_FILL, CULL_MODE_BACK),
        style == RenderStyle::Wireframe ==> r == (POLYGON_MODE_LINE, CULL_MODE_NONE),
{
    match style {
        RenderStyle::Solid => (POLYGON_MODE_FILL, CULL_MODE_BACK),
        RenderStyle::Wireframe => (POLYGON_MODE_LINE, CULL_MODE_NONE),
    }
}

/// A flag set has the wanted flags exactly when every bit set in `wanted`
/// is set in `flags`: having some of them is not enough.
pub proof fn law_has_flags_is_every_bit(flags: u32, wanted: u32)
    ensures
        has_flags(flags, wanted) <==> forall|i: int| 0 <= i < 32 ==> (bit_set(wanted, i) ==> bit_set(flags, i)),
{
    if has_flags(flags, wanted) {
        assert forall|i: int| 0 <= i < 32 implies (bit_set(wanted, i) ==> bit_set(flags, i)) by {
            let j = i as u32;
            assert(((flags & wanted) == wanted) ==> (((wanted >> j) & 1 == 1) ==> ((flags >> j) & 1 == 1)))
                by (bit_vector)
                requires
                    j < 32,
            ;
        }
    }
    if forall|i: int| 0 <= i < 32 ==> (bit_set(wanted, i) ==> bit_set(flags, i)) {
        assert(bit_set(wanted, 0) ==> bit_set(flags, 0));
        assert(bit_set(wanted, 1) ==> bit_set(flags, 1));
        assert(bit_set(wanted, 2) ==> bit_set(flags, 2));
        assert(bit_set(wanted, 3) ==> bit_set(flags, 3));
        assert(bit_set(wanted, 4) ==> bit_set(flags, 4));
        assert(bit_set(wanted, 5) ==> bit_set(flags, 5));
        assert(bit_set(wanted, 6) ==> bit_set(flags, 6));
        assert(bit_set(wanted, 7) ==> bit_set(flags, 7));
        assert(bit_set(wanted, 8) ==> bit_set(flags, 8));
        assert(bit_set(wanted, 9) ==> bit_set(flags, 9));
        assert(bit_set(wanted, 10) ==> bit_set(flags, 10));
        assert(bit_set(wanted, 11) ==> bit_set(flags, 11));
        assert(bit_set(wanted, 12) ==> bit_set(flags, 12));
        assert(bit_set(wanted, 13) ==> bit_set(flags, 13));
        assert(bit_set(wanted, 14) ==> bit_set(flags, 14));
        assert(bit_set(wanted, 15) ==> bit_set(flags, 15));
        assert(bit_set(wanted, 16) ==> bit_set(flags, 16));
        assert(bit_set(wanted, 17) ==> bit_set(flags, 17));
        assert(bit_set(wanted, 18) ==> bit_set(flags, 18));
        assert(bit_set(wanted, 19) ==> bit_set(flags, 19));
        assert(bit_set(wanted, 20) ==> bit_set(flags, 20));
        assert(bit_set(wanted, 21) ==> bit_set(flags, 21));
        assert(bit_set(wanted, 22) ==> bit_set(flags, 22));
        assert(bit_set(wanted, 23) ==> bit_set(flags, 23));
        assert(bit_set(wanted, 24) ==> bit_set(flags, 24));
        assert(bit_set(wanted, 25) ==> bit_set(flags, 25));
        assert(bit_set(wanted, 26) ==> bit_set(flags, 26));
        assert(bit_set(wanted, 27) ==> bit_set(flags, 27));
        assert(bit_set(wanted, 28) ==> bit_set(flags, 28));
        assert(bit_set(wanted, 29) ==> bit_set(flags, 29));
        assert(bit_set(wanted, 30) ==> bit_set(flags, 30));
        assert(bit_set(wanted, 31) ==> bit_set(flags, 31));
        lemma_every_bit(flags, wanted);
    }
}

proof fn lemma_every_bit(flags: u32, wanted: u32)
    requires
            (wanted >> 0u32) & 1 == 1 ==> (flags >> 0u32) & 1 == 1,
            (wanted >> 1u32) & 1 == 1 ==> (flags >> 1u32) & 1 == 1,
            (wanted >> 2u32) & 1 == 1 ==> (flags >> 2u32) & 1 == 1,
            (wanted >> 3u32) & 1 == 1 ==> (flags >> 3u32) & 1 == 1,
            (wanted >> 4u32) & 1 == 1 ==> (flags >> 4u32) & 1 == 1,
            (wanted >> 5u32) & 1 == 1 ==> (flags >> 5u32) & 1 == 1,
            (wanted >> 6u32) & 1 == 1 ==> (flags >> 6u32) & 1 == 1,
            (wanted >> 7u32) & 1 == 1 ==> (flags >> 7u32) & 1 == 1,
            (wanted >> 8u32) & 1 == 1 ==> (flags >> 8u32) & 1 == 1,
            (wanted >> 9u32) & 1 == 1 ==> (flags >> 9u32) & 1 == 1,
            (wanted >> 10u32) & 1 == 1 ==> (flags >> 10u32) & 1 == 1,
            (wanted >> 11u32) & 1 == 1 ==> (flags >> 11u32) & 1 == 1,
            (wanted >> 12u32) & 1 == 1 ==> (flags >> 12u32) & 1 == 1,
            (wanted >> 13u32) & 1 == 1 ==> (flags >> 13u32) & 1 == 1,
            (wanted >> 14u32) & 1 == 1 ==> (flags >> 14u32) & 1 == 1,
            (wanted >> 15u32) & 1 == 1 ==> (flags >> 15u32) & 1 == 1,
            (wanted >> 16u32) & 1 == 1 ==> (flags >> 16u32) & 1 == 1,
            (wanted >> 17u32) & 1 == 1 ==> (flags >> 17u32) & 1 == 1,
            (wanted >> 18u32) & 1 == 1 ==> (flags >> 18u32) & 1 == 1,
            (wanted >> 19u32) & 1 == 1 ==> (flags >> 19u32) & 1 == 1,
            (wanted >> 20u32) & 1 == 1 ==> (flags >> 20u32) & 1 == 1,
            (wanted >> 21u32) & 1 == 1 ==> (flags >> 21u32) & 1 == 1,
            (wanted >> 22u32) & 1 == 1 ==> (flags >> 22u32) & 1 == 1,
            (wanted >> 23u32) & 1 == 1 ==> (flags >> 23u32) & 1 == 1,
            (wanted >> 24u32) & 1 == 1 ==> (flags >> 24u32) & 1 == 1,
            (wanted >> 25u32) & 1 == 1 ==> (flags >> 25u32) & 1 == 1,
            (wanted >> 26u32) & 1 == 1 ==> (flags >> 26u32) & 1 == 1,
            (wanted >> 27u32) & 1 == 1 ==> (flags >> 27u32) & 1 == 1,
            (wanted >> 28u32) & 1 == 1 ==> (flags >> 28u32) & 1 == 1,
            (wanted >> 29u32) & 1 == 1 ==> (flags >> 29u32) & 1 == 1,
            (wanted >> 30u32) & 1 == 1 ==> (flags >> 30u32) & 1 == 1,
            (wanted >> 31u32) & 1 == 1 ==> (flags >> 31u32) & 1 == 1,
    ensures
        flags & wanted == wanted,
{
    assert(flags & wanted == wanted) by (bit_vector)
        requires
            (wanted >> 0u32) & 1 == 1 ==> (flags >> 0u32) & 1 == 1,
            (wanted >> 1u32) & 1 == 1 ==> (flags >> 1u32) & 1 == 1,
            (wanted >> 2u32) & 1 == 1 ==> (flags >> 2u32) & 1 == 1,
            (wanted >> 3u32) & 1 == 1 ==> (flags >> 3u32) & 1 == 1,
            (wanted >> 4u32) & 1 == 1 ==> (flags >> 4u32) & 1 == 1,
            (wanted >> 5u32) & 1 == 1 ==> (flags >> 5u32) & 1 == 1,
            (wanted >> 6u32) & 1 == 1 ==> (flags >> 6u32) & 1 == 1,
            (wanted >> 7u32) & 1 == 1 ==> (flags >> 7u32) & 1 == 1,
            (wanted >> 8u32) & 1 == 1 ==> (flags >> 8u32) & 1 == 1,
            (wanted >> 9u32) & 1 == 1 ==> (flags >> 9u32) & 1 == 1,
            (wanted >> 10u32) & 1 == 1 ==> (flags >> 10u32) & 1 == 1,
            (wanted >> 11u32) & 1 == 1 ==> (flags >> 11u32) & 1 == 1,
            (wanted >> 12u32) & 1 == 1 ==> (flags >> 12u32) & 1 == 1,
            (wanted >> 13u32) & 1 == 1 ==> (flags >> 13u32) & 1 == 1,
            (wanted >> 14u32) & 1 == 1 ==> (flags >> 14u32) & 1 == 1,
            (wanted >> 15u32) & 1 == 1 ==> (flags >> 15u32) & 1 == 1,
            (wanted >> 16u32) & 1 == 1 ==> (flags >> 16u32) & 1 == 1,
            (wanted >> 17u32) & 1 == 1 ==> (flags >> 17u32) & 1 == 1,
            (wanted >> 18u32) & 1 == 1 ==> (flags >> 18u32) & 1 == 1,
            (wanted >> 19u32) & 1 == 1 ==> (flags >> 19u32) & 1 == 1,
            (wanted >> 20u32) & 1 == 1 ==> (flags >> 20u32) & 1 == 1,
            (wanted >> 21u32) & 1 == 1 ==> (flags >> 21u32) & 1 == 1,
            (wanted >> 22u32) & 1 == 1 ==> (flags >> 22u32) & 1 == 1,
            (wanted >> 23u32) & 1 == 1 ==> (flags >> 23u32) & 1 == 1,
            (wanted >> 24u32) & 1 == 1 ==> (flags >> 24u32) & 1 == 1,
            (wanted >> 25u32) & 1 == 1 ==> (flags >> 25u32) & 1 == 1,
            (wanted >> 26u32) & 1 == 1 ==> (flags >> 26u32) & 1 == 1,
            (wanted >> 27u32) & 1 == 1 ==> (flags >> 27u32) & 1 == 1,
            (wanted >> 28u32) & 1 == 1 ==> (flags >> 28u32) & 1 == 1,
            (wanted >> 29u32) & 1 == 1 ==> (flags >> 29u32) & 1 == 1,
            (wanted >> 30u32) & 1 == 1 ==> (flags >> 30u32) & 1 == 1,
            (wanted >> 31u32) & 1 == 1 ==> (flags >> 31u32) & 1 == 1,
    ;
}

/// Discrete GPUs are preferred to integrated ones, and both to any other
/// kind of device.
pub proof fn law_gpu_preference(other: i32)
    requires
        other != DEVICE_TYPE_DISCRETE_GPU,
        other != DEVICE_TYPE_INTEGRATED_GPU,
    ensures
        device_score(DEVICE_TYPE_DISCRETE_GPU) > device_score(DEVICE_TYPE_INTEGRATED_GPU),
        device_score(DEVICE_TYPE_INTEGRATED_GPU) > device_score(other),
{
}

/// When a usable discrete GPU is offered, the chosen device (one that no
/// usable device outscores, as [`pick_physical_device`] chooses) is a
/// discrete GPU; when a usable GPU of either kind is offered, it is a GPU.
pub proof fn law_gpu_chosen_over_others(devices: Seq<DeviceCandidate>, d: int, e: int, g: int)
    requires
        0 <= d < devices.len(),
        0 <= e < devices.len(),
        0 <= g < devices[e].families.len(),
        usable_family(&devices[e], g),
        device_score(devices[e].device_type) <= device_score(devices[d].device_type),
    ensures
        devices[e].device_type == DEVICE_TYPE_DISCRETE_GPU ==> devices[d].device_type == DEVICE_TYPE_DISCRETE_GPU,
        devices[e].device_type == DEVICE_TYPE_INTEGRATED_GPU ==> (devices[d].device_type == DEVICE_TYPE_DISCRETE_GPU
            || devices[d].device_type == DEVICE_TYPE_INTEGRATED_GPU),
{
    let t = devices[d].device_type;
    if t != DEVICE_TYPE_DISCRETE_GPU && t != DEVICE_TYPE_INTEGRATED_GPU {
        law_gpu_preference(t);
    }
}

} // verus!
