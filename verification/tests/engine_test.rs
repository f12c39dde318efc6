use ash::vk;
use rust_osm_renderer::renderer::command::{
    transition_image_layout, LayoutTransition, ACCESS_COLOR_ATTACHMENT_WRITE, ACCESS_TRANSFER_READ,
    ACCESS_TRANSFER_WRITE, LAYOUT_COLOR_ATTACHMENT_OPTIMAL, LAYOUT_TRANSFER_DST_OPTIMAL,
    LAYOUT_TRANSFER_SRC_OPTIMAL, LAYOUT_UNDEFINED, STAGE_COLOR_ATTACHMENT_OUTPUT, STAGE_TOP_OF_PIPE,
    STAGE_TRANSFER,
};
use rust_osm_renderer::renderer::pipeline::{
    fragment_shader_path, staging_buffer_size, ShaderType, BYTES_PER_PIXEL, TILE_SIZE, TILE_SIZE_2X,
    VERTEX_STRIDE,
};
use rust_osm_renderer::renderer::raster::{read_framebuffer, Raster};
use rust_osm_renderer::renderer::renderer::VERTEX_BUFFER_CAPACITY;
use rust_osm_renderer::renderer::vulkan::{
    find_memory_type, find_suitable_physical_device, VulkanError, ERROR_DEVICE_LOST,
    MAX_MEMORY_TYPES, QUEUE_GRAPHICS, TIMEOUT,
};

#[test]
fn numbers_are_those_of_the_graphics_interface() {
    assert_eq!(LAYOUT_UNDEFINED, vk::ImageLayout::UNDEFINED.as_raw());
    assert_eq!(LAYOUT_COLOR_ATTACHMENT_OPTIMAL, vk::ImageLayout::COLOR_ATTACHMENT_OPTIMAL.as_raw());
    assert_eq!(LAYOUT_TRANSFER_SRC_OPTIMAL, vk::ImageLayout::TRANSFER_SRC_OPTIMAL.as_raw());
    assert_eq!(LAYOUT_TRANSFER_DST_OPTIMAL, vk::ImageLayout::TRANSFER_DST_OPTIMAL.as_raw());
    assert_eq!(ACCESS_COLOR_ATTACHMENT_WRITE, vk::AccessFlags::COLOR_ATTACHMENT_WRITE.as_raw());
    assert_eq!(ACCESS_TRANSFER_READ, vk::AccessFlags::TRANSFER_READ.as_raw());
    assert_eq!(ACCESS_TRANSFER_WRITE, vk::AccessFlags::TRANSFER_WRITE.as_raw());
    assert_eq!(STAGE_TOP_OF_PIPE, vk::PipelineStageFlags::TOP_OF_PIPE.as_raw());
    assert_eq!(
        STAGE_COLOR_ATTACHMENT_OUTPUT,
        vk::PipelineStageFlags::COLOR_ATTACHMENT_OUTPUT.as_raw()
    );
    assert_eq!(STAGE_TRANSFER, vk::PipelineStageFlags::TRANSFER.as_raw());
    assert_eq!(QUEUE_GRAPHICS, vk::QueueFlags::GRAPHICS.as_raw());
    assert_eq!(MAX_MEMORY_TYPES, vk::MAX_MEMORY_TYPES);
    assert_eq!(ERROR_DEVICE_LOST, vk::Result::ERROR_DEVICE_LOST.as_raw());
    assert_eq!(TIMEOUT, vk::Result::TIMEOUT.as_raw());
}

#[test]
fn supported_transitions_have_their_barrier() {
    assert_eq!(
        transition_image_layout(LAYOUT_UNDEFINED, LAYOUT_TRANSFER_DST_OPTIMAL),
        Some(LayoutTransition {
            src_access_mask: 0,
            dst_access_mask: 0x1000,
            src_stage: 0x1,
            dst_stage: 0x1000,
        })
    );
    assert_eq!(
        transition_image_layout(LAYOUT_UNDEFINED, LAYOUT_COLOR_ATTACHMENT_OPTIMAL),
        Some(LayoutTransition {
            src_access_mask: 0,
            dst_access_mask: 0x100,
            src_stage: 0x1,
            dst_stage: 0x400,
        })
    );
    assert_eq!(
        transition_image_layout(LAYOUT_COLOR_ATTACHMENT_OPTIMAL, LAYOUT_TRANSFER_SRC_OPTIMAL),
        Some(LayoutTransition {
            src_access_mask: 0x100,
            dst_access_mask: 0x800,
            src_stage: 0x400,
            dst_stage: 0x1000,
        })
    );
}

#[test]
fn other_transitions_have_none() {
    assert_eq!(transition_image_layout(LAYOUT_TRANSFER_SRC_OPTIMAL, LAYOUT_UNDEFINED), None);
    assert_eq!(transition_image_layout(LAYOUT_UNDEFINED, LAYOUT_UNDEFINED), None);
    assert_eq!(transition_image_layout(LAYOUT_UNDEFINED, LAYOUT_TRANSFER_SRC_OPTIMAL), None);
    assert_eq!(
        transition_image_layout(LAYOUT_TRANSFER_DST_OPTIMAL, LAYOUT_COLOR_ATTACHMENT_OPTIMAL),
        None
    );
    assert_eq!(transition_image_layout(1, 5), None);
    assert_eq!(transition_image_layout(-1, 7), None);
}

#[test]
fn first_graphics_family_is_picked() {
    assert_eq!(find_suitable_physical_device(&[]), Err(VulkanError::NoPhysicalDevice));
    assert_eq!(
        find_suitable_physical_device(&[vec![], vec![2, 4, 8]]),
        Err(VulkanError::NoSuitableQueueFamily)
    );
    assert_eq!(find_suitable_physical_device(&[vec![]]), Err(VulkanError::NoSuitableQueueFamily));
    assert_eq!(find_suitable_physical_device(&[vec![1]]), Ok((0, 0)));
    assert_eq!(find_suitable_physical_device(&[vec![2, 4], vec![6, 7, 1]]), Ok((1, 1)));
    assert_eq!(find_suitable_physical_device(&[vec![4, 15, 1], vec![1]]), Ok((0, 1)));
    assert_eq!(find_suitable_physical_device(&[vec![0xfffffffe], vec![], vec![3]]), Ok((2, 0)));
}

#[test]
fn first_fitting_memory_type_is_picked() {
    // Property flags of four memory types.
    let types = [0b0001u32, 0b0110, 0b0111, 0b0110];
    assert_eq!(find_memory_type(&types, 0b1111, 0b0110), Some(1));
    assert_eq!(find_memory_type(&types, 0b1101, 0b0110), Some(2));
    assert_eq!(find_memory_type(&types, 0b1001, 0b0110), Some(3));
    assert_eq!(find_memory_type(&types, 0b0001, 0b0110), None);
    assert_eq!(find_memory_type(&types, 0b1111, 0b1000), None);
    assert_eq!(find_memory_type(&types, 0b1111, 0), Some(0));
    assert_eq!(find_memory_type(&types, 0, 0), None);
    assert_eq!(find_memory_type(&types, 0xffff_fff0, 0b0001), None);
    assert_eq!(find_memory_type(&[], 0xffff_ffff, 0), None);

    let mut many = [0u32; 32];
    many[31] = 0x20;
    assert_eq!(find_memory_type(&many, 0x8000_0000, 0x20), Some(31));
    assert_eq!(find_memory_type(&many, 0x7fff_ffff, 0x20), None);
}

#[test]
fn shader_follows_the_flags() {
    let args = |list: &[&str]| -> Vec<String> { list.iter().map(|s| s.to_string()).collect() };
    assert_eq!(ShaderType::from_args(&args(&["prog", "map.pbf"])), ShaderType::Mercator);
    assert_eq!(
        ShaderType::from_args(&args(&["prog", "map.pbf", "--simple-shader"])),
        ShaderType::Simple
    );
    assert_eq!(
        ShaderType::from_args(&args(&["prog", "--debug-shader", "map.pbf"])),
        ShaderType::Debug
    );
    assert_eq!(
        ShaderType::from_args(&args(&["--debug-shader", "--simple-shader"])),
        ShaderType::Simple
    );
    assert_eq!(ShaderType::from_args(&args(&["--simple-shaders"])), ShaderType::Mercator);
    assert_eq!(ShaderType::from_args(&[]), ShaderType::Mercator);
}

#[test]
fn each_shader_has_its_file() {
    assert_eq!(ShaderType::Mercator.vertex_shader_path(), "shaders/tile.vert.spv");
    assert_eq!(ShaderType::Simple.vertex_shader_path(), "shaders/tile_simple.vert.spv");
    assert_eq!(ShaderType::Debug.vertex_shader_path(), "shaders/tile_debug.vert.spv");
    assert_eq!(fragment_shader_path(), "shaders/tile.frag.spv");
}

#[test]
fn sizes_of_buffers() {
    assert_eq!(TILE_SIZE, 256);
    assert_eq!(TILE_SIZE_2X, 512);
    assert_eq!(VERTEX_STRIDE, 8);
    assert_eq!(BYTES_PER_PIXEL, 4);
    assert_eq!(VERTEX_BUFFER_CAPACITY, 10_000_000);
    assert_eq!(staging_buffer_size(TILE_SIZE), 262144);
    assert_eq!(staging_buffer_size(TILE_SIZE_2X), 1048576);
    assert_eq!(staging_buffer_size(0), 0);
    assert_eq!(staging_buffer_size(1), 4);
}

#[test]
fn raster_is_read_from_the_staging_bytes() {
    let mut staging: Vec<u8> = vec![255; 2 * 2 * 4];
    staging[4] = 0;
    staging[11] = 7;
    let raster = read_framebuffer(&staging, 2).unwrap();
    assert_eq!(raster.width(), 2);
    assert_eq!(raster.height(), 2);
    assert_eq!(raster.as_raw(), &staging);
    // The second pixel has no red; the third differs in alpha only.
    assert_eq!(raster.non_white_pixels(), 1);

    staging.extend_from_slice(&[1, 2, 3]);
    let raster = read_framebuffer(&staging, 2).unwrap();
    assert_eq!(raster.as_raw().len(), 16);
    assert_eq!(raster.as_raw()[..], staging[..16]);

    assert_eq!(read_framebuffer(&staging[..15], 2).err(), Some(VulkanError::IoError));
    assert_eq!(read_framebuffer(&[], 1).err(), Some(VulkanError::IoError));
    assert!(read_framebuffer(&[], 0).is_ok());
}

#[test]
fn raster_from_raw_checks_the_size() {
    assert!(Raster::from_raw(3, 2, vec![0; 23]).is_none());
    let raster = Raster::from_raw(3, 2, vec![9; 24]).unwrap();
    assert_eq!((raster.width(), raster.height()), (3, 2));
    assert_eq!(raster.non_white_pixels(), 6);
    let raster = Raster::from_raw(3, 2, vec![255; 30]).unwrap();
    assert_eq!(raster.as_raw().len(), 24);
    assert_eq!(raster.non_white_pixels(), 0);
    assert!(Raster::from_raw(u32::MAX, u32::MAX, vec![0; 64]).is_none());
    assert!(Raster::from_raw(0, 5, vec![]).is_some());
}

#[test]
fn blank_raster_is_white() {
    for size in [0u32, 1, 3, 256, 512] {
        let raster = Raster::blank(size);
        assert_eq!(raster.width(), size);
        assert_eq!(raster.height(), size);
        assert_eq!(raster.as_raw().len(), (size * size * 4) as usize);
        assert!(raster.as_raw().iter().all(|b| *b == 255));
        assert_eq!(raster.non_white_pixels(), 0);
    }
}
