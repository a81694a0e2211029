use bevy_display_compute::extract_gpu_image_copier;
use bevy_display_compute::run_frame;
use bevy_display_compute::CopyExtent;
use bevy_display_compute::CopyTextureFromComputeNode;
use bevy_display_compute::DisplayComputeResultPlugin;
use bevy_display_compute::NodeRunError;
use bevy_display_compute::PixelFormat;
use bevy_display_compute::RenderResources;
use bevy_display_compute::RenderWorldState;
use bevy_display_compute::Scene;
use bevy_display_compute::TextureCopier;
use bevy_display_compute::TextureCopiers;
use bevy_display_compute::TextureDescriptor;

fn desc(width: u32, height: u32, format: PixelFormat) -> TextureDescriptor {
    TextureDescriptor {
        width,
        height,
        mip_level_count: 1,
        format,
    }
}

#[test]
fn bytes_per_pixel_values() {
    assert_eq!(PixelFormat::Rgba8Unorm.bytes_per_pixel(), 4);
    assert_eq!(PixelFormat::Rgba32Float.bytes_per_pixel(), 16);
}

#[test]
fn factory_wires_matching_pair() {
    let mut res = RenderResources::new();
    let pixel = vec![9u8, 8, 7, 6];
    let copier = TextureCopier::new_2d_fill(&mut res, 4, 3, PixelFormat::Rgba8Unorm, &pixel);
    assert_eq!(copier.source, 0);
    assert_eq!(copier.target, 0);
    assert_eq!(res.textures.len(), 2);
    assert_eq!(res.get_gpu_image(copier.target), Some(1));
    let d = desc(4, 3, PixelFormat::Rgba8Unorm);
    assert_eq!(res.textures[0].desc, d);
    assert_eq!(res.textures[1].desc, d);
    let expected: Vec<u8> = pixel.iter().cycle().take(4 * 3 * 4).cloned().collect();
    assert_eq!(res.textures[0].data, expected);
    assert_eq!(res.textures[1].data, expected);
}

#[test]
fn extract_rebuilds_mirror_each_frame() {
    let mut res = RenderResources::new();
    let pixel = vec![0u8, 0, 0, 0];
    let mut scene = Scene::new();
    let c0 = TextureCopier::new_2d_fill(&mut res, 2, 2, PixelFormat::Rgba8Unorm, &pixel);
    let e0 = scene.spawn(c0);
    let mut render = RenderWorldState::new();

    // Frame N's extraction sees only the first request.
    extract_gpu_image_copier(&scene, &mut render);
    assert_eq!(render.copiers.0, vec![e0]);

    // A request added after frame N's extraction is not in frame N's mirror.
    let c1 = TextureCopier::new_2d_fill(&mut res, 2, 2, PixelFormat::Rgba8Unorm, &pixel);
    let e1 = scene.spawn(c1);
    assert_eq!(render.copiers.0, vec![e0]);

    // By frame N+1 it is present; the mirror is a full rebuild.
    extract_gpu_image_copier(&scene, &mut render);
    assert_eq!(render.copiers.0, vec![e0, e1]);
}

#[test]
fn despawn_removes_request_from_next_frame() {
    let mut res = RenderResources::new();
    let pixel = vec![0u8, 0, 0, 0];
    let mut scene = Scene::new();
    let c0 = TextureCopier::new_2d_fill(&mut res, 2, 2, PixelFormat::Rgba8Unorm, &pixel);
    let c1 = TextureCopier::new_2d_fill(&mut res, 2, 2, PixelFormat::Rgba8Unorm, &pixel);
    let e0 = scene.spawn(c0);
    let e1 = scene.spawn(c1);
    let node = CopyTextureFromComputeNode::new();
    let mut render = RenderWorldState::new();

    let cmds = run_frame(&scene, &mut render, &node, &mut res).unwrap();
    assert_eq!(cmds.len(), 2);

    // Removing the owning scene element removes its request from the very
    // next frame's mirror, and no command is issued for it.
    scene.despawn(e0);
    let cmds = run_frame(&scene, &mut render, &node, &mut res).unwrap();
    assert_eq!(render.copiers.0, vec![e1]);
    assert_eq!(cmds.len(), 1);
    assert_eq!(cmds[0].source, c1.source);
}

#[test]
fn one_full_extent_command_per_request() {
    let mut res = RenderResources::new();
    let pixel = vec![1u8, 2, 3, 4];
    let mut scene = Scene::new();
    let copier = TextureCopier::new_2d_fill(&mut res, 2, 2, PixelFormat::Rgba8Unorm, &pixel);
    scene.spawn(copier);
    let node = CopyTextureFromComputeNode::new();
    let mut render = RenderWorldState::new();

    let cmds = run_frame(&scene, &mut render, &node, &mut res).unwrap();
    assert_eq!(cmds.len(), 1);
    assert_eq!(cmds[0].source, copier.source);
    assert_eq!(cmds[0].mip_level, 0);
    assert_eq!(
        cmds[0].extent,
        CopyExtent {
            width: 2,
            height: 2
        }
    );
    let target_id = res.get_gpu_image(copier.target).unwrap();
    assert_eq!(cmds[0].target, target_id);
    assert_eq!(res.textures[target_id].data, res.textures[copier.source].data);
}

#[test]
fn dimension_mismatch_aborts_before_any_copy() {
    let mut res = RenderResources::new();
    let pixel = vec![5u8, 5, 5, 5];
    let other = vec![9u8, 9, 9, 9];
    let source = res.create_texture(desc(2, 2, PixelFormat::Rgba8Unorm), &pixel);
    let target = res.add_target_image(desc(3, 3, PixelFormat::Rgba8Unorm), &other);
    let mut scene = Scene::new();
    scene.spawn(TextureCopier { source, target });
    let node = CopyTextureFromComputeNode::new();
    let mut render = RenderWorldState::new();

    let before = res.textures[1].data.clone();
    let r = run_frame(&scene, &mut render, &node, &mut res);
    assert_eq!(r, Err(NodeRunError::DimensionMismatch));
    assert_eq!(res.textures[1].data, before);
}

#[test]
fn missing_mip_level_aborts() {
    let mut res = RenderResources::new();
    let pixel = vec![5u8, 5, 5, 5];
    let mut d = desc(2, 2, PixelFormat::Rgba8Unorm);
    d.mip_level_count = 0;
    let source = res.create_texture(d, &pixel);
    let target = res.add_target_image(d, &pixel);
    let mut scene = Scene::new();
    scene.spawn(TextureCopier { source, target });
    let node = CopyTextureFromComputeNode::new();
    let mut render = RenderWorldState::new();

    let r = run_frame(&scene, &mut render, &node, &mut res);
    assert_eq!(r, Err(NodeRunError::DimensionMismatch));
}

#[test]
fn format_mismatch_aborts() {
    let mut res = RenderResources::new();
    let small = vec![5u8, 5, 5, 5];
    let wide = vec![0u8; 16];
    let source = res.create_texture(desc(2, 2, PixelFormat::Rgba8Unorm), &small);
    let target = res.add_target_image(desc(2, 2, PixelFormat::Rgba32Float), &wide);
    let mut scene = Scene::new();
    scene.spawn(TextureCopier { source, target });
    let node = CopyTextureFromComputeNode::new();
    let mut render = RenderWorldState::new();

    let r = run_frame(&scene, &mut render, &node, &mut res);
    assert_eq!(r, Err(NodeRunError::DimensionMismatch));
}

#[test]
fn missing_destination_aborts() {
    let mut res = RenderResources::new();
    let pixel = vec![5u8, 5, 5, 5];
    let source = res.create_texture(desc(2, 2, PixelFormat::Rgba8Unorm), &pixel);
    let mut scene = Scene::new();
    // Handle 7 was never backed by the resource table.
    scene.spawn(TextureCopier { source, target: 7 });
    let node = CopyTextureFromComputeNode::new();
    let mut render = RenderWorldState::new();

    let r = run_frame(&scene, &mut render, &node, &mut res);
    assert_eq!(r, Err(NodeRunError::MissingDestination));
}

#[test]
fn stale_mirror_entry_is_skipped() {
    let res = RenderResources::new();
    // A mirror naming an element that is gone from the snapshot: the node
    // skips it silently.
    let render = RenderWorldState {
        snapshot: Vec::new(),
        copiers: TextureCopiers(vec![9]),
    };
    let node = CopyTextureFromComputeNode::new();
    let r = node.run(&render, &res);
    assert_eq!(r, Ok(Vec::new()));
}

#[test]
fn empty_scene_issues_no_commands() {
    let mut res = RenderResources::new();
    let scene = Scene::new();
    let node = CopyTextureFromComputeNode::new();
    let mut render = RenderWorldState::new();
    let cmds = run_frame(&scene, &mut render, &node, &mut res).unwrap();
    assert!(cmds.is_empty());
    assert!(render.copiers.0.is_empty());
}

#[test]
fn plugin_build_initial_state() {
    let (mut render, node) = DisplayComputeResultPlugin.build();
    assert!(render.snapshot.is_empty());
    assert!(render.copiers.0.is_empty());
    assert_eq!(node.pinned, None);

    let mut res = RenderResources::new();
    let scene = Scene::new();
    let cmds = run_frame(&scene, &mut render, &node, &mut res).unwrap();
    assert!(cmds.is_empty());
}

#[test]
fn despawn_of_unknown_id_keeps_scene() {
    let mut scene = Scene::new();
    let e0 = scene.spawn(TextureCopier { source: 0, target: 0 });
    scene.despawn(e0 + 1);
    assert_eq!(scene.entries.len(), 1);
    assert_eq!(scene.entries[0].0, e0);
}

#[test]
fn full_copy_scenario_rgba32float_512() {
    // The convenience factory at 512 by 512, RGBA 32-bit float, filled with
    // (1.0, 0.0, 0.5, 1.0): after one frame the destination's full region
    // equals the source's contents at the time of the copy.
    let mut fill: Vec<u8> = Vec::new();
    for c in [1.0f32, 0.0, 0.5, 1.0] {
        fill.extend_from_slice(&c.to_le_bytes());
    }
    let mut res = RenderResources::new();
    let mut scene = Scene::new();
    let copier = TextureCopier::new_2d_fill(&mut res, 512, 512, PixelFormat::Rgba32Float, &fill);
    scene.spawn(copier);
    let node = CopyTextureFromComputeNode::new();
    let mut render = RenderWorldState::new();

    let cmds = run_frame(&scene, &mut render, &node, &mut res).unwrap();
    assert_eq!(cmds.len(), 1);
    assert_eq!(
        cmds[0].extent,
        CopyExtent {
            width: 512,
            height: 512
        }
    );
    let target_id = res.get_gpu_image(copier.target).unwrap();
    let expected: Vec<u8> = fill.iter().cycle().take(512 * 512 * 16).cloned().collect();
    assert_eq!(res.textures[copier.source].data, expected);
    assert_eq!(res.textures[target_id].data, expected);
}

#[test]
fn pinned_subrect_scenario_300_by_200() {
    // A pinned 300 by 200 sub-rectangle on a 512 by 512 pair: after one
    // frame only that region of the destination equals the source; pixels
    // outside it retain their prior value.
    let src_pixel = vec![10u8, 20, 30, 40];
    let dst_pixel = vec![1u8, 2, 3, 4];
    let mut res = RenderResources::new();
    let source = res.create_texture(desc(512, 512, PixelFormat::Rgba8Unorm), &src_pixel);
    let target = res.add_target_image(desc(512, 512, PixelFormat::Rgba8Unorm), &dst_pixel);
    let mut scene = Scene::new();
    scene.spawn(TextureCopier { source, target });
    let node = CopyTextureFromComputeNode::new_pinned(CopyExtent {
        width: 300,
        height: 200,
    });
    let mut render = RenderWorldState::new();

    let cmds = run_frame(&scene, &mut render, &node, &mut res).unwrap();
    assert_eq!(cmds.len(), 1);
    assert_eq!(
        cmds[0].extent,
        CopyExtent {
            width: 300,
            height: 200
        }
    );

    let target_id = res.get_gpu_image(target).unwrap();
    let data = &res.textures[target_id].data;
    let pixel_at = |x: usize, y: usize| &data[(y * 512 + x) * 4..(y * 512 + x) * 4 + 4];
    for (x, y) in [(0, 0), (299, 0), (0, 199), (299, 199), (150, 100)] {
        assert_eq!(pixel_at(x, y), &src_pixel[..], "inside at {x},{y}");
    }
    for (x, y) in [(300, 0), (0, 200), (300, 200), (511, 199), (299, 511), (511, 511)] {
        assert_eq!(pixel_at(x, y), &dst_pixel[..], "outside at {x},{y}");
    }
}

#[test]
fn pinned_extent_larger_than_pair_aborts() {
    let pixel = vec![0u8, 0, 0, 0];
    let mut res = RenderResources::new();
    let mut scene = Scene::new();
    let copier = TextureCopier::new_2d_fill(&mut res, 512, 512, PixelFormat::Rgba8Unorm, &pixel);
    scene.spawn(copier);
    let node = CopyTextureFromComputeNode::new_pinned(CopyExtent {
        width: 600,
        height: 600,
    });
    let mut render = RenderWorldState::new();
    let r = run_frame(&scene, &mut render, &node, &mut res);
    assert_eq!(r, Err(NodeRunError::DimensionMismatch));
}

#[test]
fn pinned_zero_extent_copies_nothing() {
    let src_pixel = vec![10u8, 20, 30, 40];
    let dst_pixel = vec![1u8, 2, 3, 4];
    let mut res = RenderResources::new();
    let source = res.create_texture(desc(2, 2, PixelFormat::Rgba8Unorm), &src_pixel);
    let target = res.add_target_image(desc(2, 2, PixelFormat::Rgba8Unorm), &dst_pixel);
    let mut scene = Scene::new();
    scene.spawn(TextureCopier { source, target });
    let node = CopyTextureFromComputeNode::new_pinned(CopyExtent {
        width: 0,
        height: 0,
    });
    let mut render = RenderWorldState::new();
    let cmds = run_frame(&scene, &mut render, &node, &mut res).unwrap();
    assert_eq!(cmds.len(), 1);
    let target_id = res.get_gpu_image(target).unwrap();
    let expected: Vec<u8> = dst_pixel.iter().cycle().take(2 * 2 * 4).cloned().collect();
    assert_eq!(res.textures[target_id].data, expected);
}

#[test]
fn commands_follow_mirror_order() {
    let pixel = vec![0u8, 0, 0, 0];
    let mut res = RenderResources::new();
    let mut scene = Scene::new();
    let c0 = TextureCopier::new_2d_fill(&mut res, 2, 2, PixelFormat::Rgba8Unorm, &pixel);
    let c1 = TextureCopier::new_2d_fill(&mut res, 8, 8, PixelFormat::Rgba8Unorm, &pixel);
    scene.spawn(c0);
    scene.spawn(c1);
    let node = CopyTextureFromComputeNode::new();
    let mut render = RenderWorldState::new();
    let cmds = run_frame(&scene, &mut render, &node, &mut res).unwrap();
    assert_eq!(cmds.len(), 2);
    assert_eq!(cmds[0].source, c0.source);
    assert_eq!(cmds[1].source, c1.source);
    assert_eq!(
        cmds[1].extent,
        CopyExtent {
            width: 8,
            height: 8
        }
    );
}
