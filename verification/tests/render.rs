use diomedes::batch::{batch_order, draw_groups, plan_draws, DrawGroup};
use diomedes::input::{key_eq, Input, Key};
use diomedes::library::{InternStep, MeshLibrary};
use diomedes::mesh::{
    cube, merge_obj_models, triangle, Coord, GeometryError, MeshVertex, NoVertices, ObjModel,
};
use diomedes::scene::{Instance, MeshShape, RenderStyle, Scene};
use diomedes::shader::spirv_words;
use diomedes::ui::{grown_capacity, pack_ui, UiPrimitive};
use diomedes::vulkan::{
    any_name_eq, check_uniform_write, debug_utils_available, extension_name_eq,
    find_memory_type, image_count, instance_capacity, next_frame_slot, pick_composite_alpha,
    pick_extent, pick_format, pick_physical_device, raster_mode, resize_applies, DeviceCandidate, Extent,
    NoSuitableDevice, NoSuitableMemoryType, QueueFamily, SurfaceCapabilities, SurfaceFormat,
    TooManyInstances, ALPHA_INHERIT, ALPHA_OPAQUE, ALPHA_PRE_MULTIPLIED,
    CULL_MODE_BACK, CULL_MODE_NONE, DEVICE_TYPE_DISCRETE_GPU, DEVICE_TYPE_INTEGRATED_GPU,
    POLYGON_MODE_FILL, POLYGON_MODE_LINE, QUEUE_GRAPHICS,
};

fn c(x: i32, y: i32, z: i32) -> Coord {
    Coord { x, y, z }
}

fn delta(a: Coord, b: Coord) -> (i64, i64, i64) {
    ((a.x - b.x) as i64, (a.y - b.y) as i64, (a.z - b.z) as i64)
}

fn cross_dot(u: (i64, i64, i64), v: (i64, i64, i64), n: Coord) -> i64 {
    (u.1 * v.2 - u.2 * v.1) * n.x as i64
        + (u.2 * v.0 - u.0 * v.2) * n.y as i64
        + (u.0 * v.1 - u.1 * v.0) * n.z as i64
}

#[test]
fn default_style_is_solid() {
    assert_eq!(RenderStyle::default(), RenderStyle::Solid);
}

#[test]
fn scene_add_then_lookup() {
    let mut scene: Scene<u32> = Scene::new();
    assert!(scene.is_empty());
    let a = scene.add_shape(MeshShape::Cube, 1);
    let b = scene.add_styled(MeshShape::Triangle, 2, RenderStyle::Wireframe);
    assert_eq!(scene.len(), 2);
    let ia = scene.instance_mut(a).expect("added instance");
    assert_eq!((ia.shape, ia.transform, ia.style), (MeshShape::Cube, 1, RenderStyle::Solid));
    ia.transform = 7;
    let ib = scene.instance_mut(b).expect("added instance");
    assert_eq!((ib.shape, ib.transform, ib.style), (MeshShape::Triangle, 2, RenderStyle::Wireframe));
    assert_eq!(scene.instances()[0].transform, 7);
    if let Some(inst) = scene.instance_mut(b) {
        inst.style = RenderStyle::Solid;
    }
    assert_eq!(scene.instances()[1].style, RenderStyle::Solid);
    scene.instances_mut()[0].transform = 9;
    assert_eq!(scene.instances()[0].transform, 9);
}

#[test]
fn scene_builder_appends_in_order() {
    let scene = Scene::new()
        .with(MeshShape::Icosphere, 0u8)
        .with_styled(MeshShape::Cube, 1u8, RenderStyle::Wireframe);
    let shapes: Vec<MeshShape> = scene.instances().iter().map(|i| i.shape).collect();
    assert_eq!(shapes, vec![MeshShape::Icosphere, MeshShape::Cube]);
    assert_eq!(scene.instances()[1].style, RenderStyle::Wireframe);
}

#[test]
fn handle_from_another_scene_misses() {
    let mut big: Scene<u8> = Scene::new();
    big.add_shape(MeshShape::Cube, 0);
    let far = big.add_shape(MeshShape::Cube, 0);
    let mut small: Scene<u8> = Scene::new();
    small.add_shape(MeshShape::Cube, 0);
    assert!(small.instance_mut(far).is_none());
    assert_eq!(small.len(), 1);
}

fn inst(shape: MeshShape, style: RenderStyle) -> Instance<()> {
    Instance { shape, transform: (), style }
}

#[test]
fn draws_batch_by_shape_then_style_keeping_insertion_order() {
    let instances = vec![
        inst(MeshShape::Cube, RenderStyle::Wireframe),
        inst(MeshShape::Triangle, RenderStyle::Solid),
        inst(MeshShape::Cube, RenderStyle::Solid),
        inst(MeshShape::Cube, RenderStyle::Wireframe),
        inst(MeshShape::Triangle, RenderStyle::Solid),
    ];
    let order = batch_order(&instances);
    assert_eq!(order, vec![1, 4, 2, 0, 3]);
    let groups = draw_groups(&instances, &order);
    assert_eq!(
        groups,
        vec![
            DrawGroup { shape: MeshShape::Triangle, style: RenderStyle::Solid, first: 0, count: 2 },
            DrawGroup { shape: MeshShape::Cube, style: RenderStyle::Solid, first: 2, count: 1 },
            DrawGroup { shape: MeshShape::Cube, style: RenderStyle::Wireframe, first: 3, count: 2 },
        ]
    );
    let (order2, groups2) = plan_draws(&instances);
    assert_eq!(order2, order);
    assert_eq!(groups2, groups);
}

#[test]
fn every_instance_is_drawn_exactly_once() {
    let shapes = [MeshShape::Tetrahedron, MeshShape::Icosphere, MeshShape::Triangle, MeshShape::Cube];
    let styles = [RenderStyle::Wireframe, RenderStyle::Solid];
    let instances: Vec<Instance<()>> =
        (0..13).map(|k| inst(shapes[k * 7 % 4], styles[k * 3 % 2])).collect();
    let (order, groups) = plan_draws(&instances);
    let mut drawn = vec![0usize; instances.len()];
    for g in &groups {
        for p in g.first..g.first + g.count {
            let i = order[p];
            assert_eq!((instances[i].shape, instances[i].style), (g.shape, g.style));
            drawn[i] += 1;
        }
    }
    assert!(drawn.iter().all(|&n| n == 1));
}

#[test]
fn nothing_to_draw_for_an_empty_scene() {
    let (order, groups) = plan_draws::<()>(&[]);
    assert!(order.is_empty());
    assert!(groups.is_empty());
}

#[test]
fn triangle_geometry() {
    let m = triangle();
    assert_eq!(m.indices, vec![0, 1, 2]);
    let p: Vec<Coord> = m.vertices.iter().map(|v| v.position).collect();
    assert_eq!(p, vec![c(-1, -1, 0), c(1, -1, 0), c(0, 1, 0)]);
    let colors: Vec<Coord> = m.vertices.iter().map(|v| v.color).collect();
    assert_eq!(colors, vec![c(1, 0, 0), c(0, 1, 0), c(0, 0, 1)]);
    let n = m.vertices[0].normal;
    assert!(cross_dot(delta(p[1], p[0]), delta(p[2], p[0]), n) > 0);
}

#[test]
fn cube_geometry_is_closed_and_outward() {
    let m = cube();
    assert_eq!(m.vertices.len(), 24);
    assert_eq!(m.indices.len(), 36);
    assert_eq!(m.indices[..6], [0, 1, 2, 0, 2, 3]);
    assert_eq!(m.indices[30..], [20, 21, 22, 20, 22, 23]);
    assert_eq!(
        m.vertices[0],
        MeshVertex { position: c(1, -1, -1), normal: c(1, 0, 0), color: c(1, 0, 0) }
    );
    for tri in m.indices.chunks(3) {
        let (a, b, d) = (m.vertices[tri[0] as usize], m.vertices[tri[1] as usize], m.vertices[tri[2] as usize]);
        assert_eq!(a.normal, b.normal);
        assert_eq!(a.normal, d.normal);
        let w = cross_dot(delta(b.position, a.position), delta(d.position, a.position), a.normal);
        assert!(w > 0);
        let n = a.normal;
        let out = a.position.x * n.x + a.position.y * n.y + a.position.z * n.z;
        assert_eq!(out, 1);
    }
}

#[test]
fn generated_geometry_only_for_builtin_shapes() {
    assert!(MeshShape::Triangle.generated_geometry().is_ok());
    assert_eq!(MeshShape::Cube.generated_geometry().map(|m| m.indices.len()), Ok(36));
    assert_eq!(
        MeshShape::Icosphere.generated_geometry().map(|m| m.indices.len()),
        Err(GeometryError::Unregistered(MeshShape::Icosphere))
    );
    assert_eq!(
        MeshShape::Tetrahedron.generated_geometry().map(|m| m.indices.len()),
        Err(GeometryError::Unregistered(MeshShape::Tetrahedron))
    );
}

#[test]
fn obj_models_merge_without_rebasing() {
    let models = vec![
        ObjModel { position_len: 9, indices: vec![0, 1, 2] },
        ObjModel { position_len: 12, indices: vec![0, 2, 3] },
    ];
    assert_eq!(merge_obj_models(&models), Ok((7, vec![0, 1, 2, 0, 2, 3])));
    let empty = vec![ObjModel { position_len: 0, indices: vec![] }];
    assert_eq!(merge_obj_models(&empty), Err(NoVertices));
    assert_eq!(merge_obj_models(&[]), Err(NoVertices));
}

#[test]
fn library_interns_each_shape_once() {
    let mut lib: MeshLibrary<u32> = MeshLibrary::new();
    assert!(!lib.contains(MeshShape::Cube));
    assert!(matches!(lib.get_or_intern(MeshShape::Cube), InternStep::Upload(m) if m.indices.len() == 36));
    assert!(lib.intern(MeshShape::Cube, 10));
    assert!(!lib.intern(MeshShape::Cube, 11));
    assert_eq!(lib.get(MeshShape::Cube), Some(&10));
    assert!(matches!(lib.get_or_intern(MeshShape::Cube), InternStep::Ready));
    assert!(matches!(
        lib.get_or_intern(MeshShape::Tetrahedron),
        InternStep::Unavailable(GeometryError::Unregistered(MeshShape::Tetrahedron))
    ));
    assert!(lib.intern(MeshShape::Tetrahedron, 12));
    assert!(matches!(lib.get_or_intern(MeshShape::Tetrahedron), InternStep::Ready));
    let mut handles = lib.destroy();
    handles.sort();
    assert_eq!(handles, vec![10, 12]);
    assert_eq!(lib.get(MeshShape::Cube), None);
}

#[test]
fn spirv_bytes_decode_little_endian() {
    let bytes = [0x03, 0x02, 0x23, 0x07, 0x00, 0x00, 0x01, 0x00, 0xff];
    assert_eq!(spirv_words(&bytes), vec![0x0723_0203, 0x0001_0000]);
    assert!(spirv_words(&[1, 2, 3]).is_empty());
}

#[test]
fn ui_meshes_pack_into_one_index_buffer() {
    let prims = vec![
        UiPrimitive::Mesh { vertex_count: 4, indices: vec![0, 1, 2, 0, 2, 3] },
        UiPrimitive::Callback,
        UiPrimitive::Mesh { vertex_count: 3, indices: vec![0, 1, 2] },
    ];
    let layout = pack_ui(&prims);
    assert_eq!(layout.indices, vec![0, 1, 2, 0, 2, 3, 4, 5, 6]);
    assert_eq!(layout.first_index, vec![Some(0), None, Some(6)]);
    assert_eq!(layout.vertex_count, 7);
    assert_eq!(layout.index_count, 9);
}

#[test]
fn ui_buffers_grow_to_a_power_of_two() {
    assert_eq!(grown_capacity(256, 100), 256);
    assert_eq!(grown_capacity(256, 300), 512);
    assert_eq!(grown_capacity(0, 1), 1);
    assert_eq!(grown_capacity(10, 1025), 2048);
}

#[test]
fn keys_are_held_between_press_and_release() {
    let mut input = Input::new();
    assert!(!input.is_pressed_char('w'));
    input.key_pressed(Key::Character("w".to_string()));
    input.key_pressed(Key::Named("Shift".to_string()));
    input.key_pressed(Key::Character("w".to_string()));
    assert!(input.is_pressed_char('w'));
    assert!(input.is_pressed_named("Shift"));
    assert!(input.is_pressed(Key::Named("Shift".to_string())));
    input.key_released(Key::Character("w".to_string()));
    assert!(!input.is_pressed_char('w'));
    assert!(input.is_pressed_named("Shift"));
    assert!(!input.is_pressed(Key::Dead(None)));
}

#[test]
fn escape_press_asks_to_exit() {
    let mut input = Input::new();
    assert!(!input.on_key_event(Key::Named("Space".to_string()), true));
    assert!(input.is_pressed_named("Space"));
    assert!(!input.on_key_event(Key::Named("Escape".to_string()), false));
    assert!(input.on_key_event(Key::Named("Escape".to_string()), true));
    assert!(!input.on_key_event(Key::Named("Space".to_string()), false));
    assert!(!input.is_pressed_named("Space"));
}

#[test]
fn keys_compare_by_kind_and_text() {
    assert!(key_eq(&Key::Named("A".to_string()), &Key::Named("A".to_string())));
    assert!(!key_eq(&Key::Named("A".to_string()), &Key::Character("A".to_string())));
    assert!(key_eq(&Key::Dead(Some('^')), &Key::Dead(Some('^'))));
    assert!(!key_eq(&Key::Dead(Some('^')), &Key::Dead(None)));
    assert!(key_eq(&Key::Unidentified("0x1f".to_string()), &Key::Unidentified("0x1f".to_string())));
}

#[test]
fn memory_type_is_the_first_allowed_with_the_properties() {
    let types = [0b0001, 0b0110, 0b0111, 0b0110];
    assert_eq!(find_memory_type(&types, 0b1111, 0b0110), Ok(1));
    assert_eq!(find_memory_type(&types, 0b1101, 0b0110), Ok(2));
    assert_eq!(find_memory_type(&types, 0b0001, 0b0110), Err(NoSuitableMemoryType));
    assert_eq!(find_memory_type(&[], 0xffff_ffff, 0), Err(NoSuitableMemoryType));
}

fn family(graphics: bool, present: bool) -> QueueFamily {
    QueueFamily { queue_flags: if graphics { QUEUE_GRAPHICS | 4 } else { 4 }, supports_present: present }
}

fn device(device_type: i32, families: Vec<QueueFamily>) -> DeviceCandidate {
    DeviceCandidate { device_type, families, has_formats: true, has_present_modes: true }
}

#[test]
fn discrete_gpu_with_a_usable_family_wins() {
    let devices = vec![
        device(DEVICE_TYPE_INTEGRATED_GPU, vec![family(true, true)]),
        device(DEVICE_TYPE_DISCRETE_GPU, vec![family(true, false), family(false, true), family(true, true)]),
        device(DEVICE_TYPE_DISCRETE_GPU, vec![family(true, true)]),
    ];
    assert_eq!(pick_physical_device(&devices), Ok((1, 2)));
    let unusable = vec![
        device(DEVICE_TYPE_DISCRETE_GPU, vec![family(false, true)]),
        DeviceCandidate { device_type: 1, families: vec![family(true, true)], has_formats: false, has_present_modes: true },
    ];
    assert_eq!(pick_physical_device(&unusable), Err(NoSuitableDevice));
    let fallback = vec![device(4, vec![family(true, true)]), device(DEVICE_TYPE_INTEGRATED_GPU, vec![family(false, false)])];
    assert_eq!(pick_physical_device(&fallback), Ok((0, 0)));
}

#[test]
fn surface_format_prefers_bgra_srgb() {
    let offered = [SurfaceFormat { format: 50, color_space: 0 }, SurfaceFormat { format: 44, color_space: 0 }];
    assert_eq!(pick_format(&offered), SurfaceFormat { format: 44, color_space: 0 });
    let other = [SurfaceFormat { format: 50, color_space: 0 }, SurfaceFormat { format: 44, color_space: 1 }];
    assert_eq!(pick_format(&other), SurfaceFormat { format: 50, color_space: 0 });
}

fn caps(current: Extent, min_count: u32, max_count: u32) -> SurfaceCapabilities {
    SurfaceCapabilities {
        current_extent: current,
        min_image_extent: Extent { width: 100, height: 100 },
        max_image_extent: Extent { width: 1000, height: 800 },
        min_image_count: min_count,
        max_image_count: max_count,
        supported_composite_alpha: ALPHA_OPAQUE,
    }
}

#[test]
fn extent_is_fixed_or_clamped() {
    let fixed = caps(Extent { width: 640, height: 480 }, 2, 0);
    assert_eq!(pick_extent(&fixed, Extent { width: 5000, height: 1 }), Extent { width: 640, height: 480 });
    let free = caps(Extent { width: u32::MAX, height: u32::MAX }, 2, 0);
    assert_eq!(pick_extent(&free, Extent { width: 5000, height: 1 }), Extent { width: 1000, height: 100 });
    assert_eq!(pick_extent(&free, Extent { width: 300, height: 200 }), Extent { width: 300, height: 200 });
}

#[test]
fn image_count_is_one_above_minimum_within_maximum() {
    let e = Extent { width: 1, height: 1 };
    assert_eq!(image_count(&caps(e, 2, 0)), 3);
    assert_eq!(image_count(&caps(e, 2, 8)), 3);
    assert_eq!(image_count(&caps(e, 3, 3)), 3);
    assert_eq!(image_count(&caps(e, u32::MAX, 0)), u32::MAX);
}

#[test]
fn composite_alpha_takes_the_first_supported() {
    assert_eq!(pick_composite_alpha(ALPHA_OPAQUE | ALPHA_INHERIT), ALPHA_OPAQUE);
    assert_eq!(pick_composite_alpha(ALPHA_PRE_MULTIPLIED | ALPHA_INHERIT), ALPHA_PRE_MULTIPLIED);
    assert_eq!(pick_composite_alpha(ALPHA_INHERIT), ALPHA_INHERIT);
    assert_eq!(pick_composite_alpha(0), ALPHA_OPAQUE);
}

fn field(name: &str) -> Vec<u8> {
    let mut f = name.as_bytes().to_vec();
    f.resize(256, 0);
    f
}

#[test]
fn extension_names_compare_up_to_the_nul() {
    assert!(extension_name_eq(&field("VK_EXT_debug_utils"), b"VK_EXT_debug_utils"));
    assert!(!extension_name_eq(&field("VK_EXT_debug_utils_x"), b"VK_EXT_debug_utils"));
    assert!(!extension_name_eq(&field("VK_EXT_debug"), b"VK_EXT_debug_utils"));
    let exts = vec![field("VK_KHR_surface"), field("VK_EXT_debug_utils")];
    let layers = vec![field("VK_LAYER_KHRONOS_validation")];
    assert!(any_name_eq(&exts, b"VK_KHR_surface"));
    assert!(debug_utils_available(&exts, &layers, b"VK_EXT_debug_utils", b"VK_LAYER_KHRONOS_validation"));
    assert!(!debug_utils_available(&exts, &[], b"VK_EXT_debug_utils", b"VK_LAYER_KHRONOS_validation"));
}

#[test]
fn uniform_capacity_and_overflow() {
    assert_eq!(instance_capacity(65536), 256);
    assert_eq!(instance_capacity(16384), 128);
    assert_eq!(instance_capacity(100), 0);
    assert_eq!(check_uniform_write(256, 128), Ok(()));
    assert_eq!(check_uniform_write(257, 128), Err(TooManyInstances));
    assert_eq!(check_uniform_write(usize::MAX, usize::MAX), Ok(()));
}

#[test]
fn frames_alternate_and_empty_resizes_are_ignored() {
    assert_eq!(next_frame_slot(0), 1);
    assert_eq!(next_frame_slot(1), 0);
    assert!(resize_applies(Extent { width: 800, height: 600 }));
    assert!(!resize_applies(Extent { width: 0, height: 600 }));
    assert!(!resize_applies(Extent { width: 800, height: 0 }));
}

#[test]
fn missing_geometry_says_to_register_it() {
    let e = MeshShape::Icosphere.generated_geometry().map(|m| m.indices.len()).unwrap_err();
    assert_eq!(
        e.message(),
        "no geometry registered for MeshShape::Icosphere; call Renderer::register_mesh_data first"
    );
    assert_eq!(
        GeometryError::Unregistered(MeshShape::Tetrahedron).message(),
        "no geometry registered for MeshShape::Tetrahedron; call Renderer::register_mesh_data first"
    );
}

#[test]
fn styles_pick_their_rasterizer() {
    assert_eq!(raster_mode(RenderStyle::Solid), (POLYGON_MODE_FILL, CULL_MODE_BACK));
    assert_eq!(raster_mode(RenderStyle::Wireframe), (POLYGON_MODE_LINE, CULL_MODE_NONE));
    assert_eq!(raster_mode(RenderStyle::Wireframe), (1, 0));
}
