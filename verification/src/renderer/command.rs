//! The barrier that moves an image from one layout to another.
//!
//! Layouts, access masks and pipeline stages are the numbers that the
//! graphics interface gives them.

use vstd::prelude::*;

verus! {

/// The layout of an image whose contents are undefined.
pub const LAYOUT_UNDEFINED: i32 = 0;

/// The layout of an image that is drawn into.
pub const LAYOUT_COLOR_ATTACHMENT_OPTIMAL: i32 = 2;

/// The layout of an image that is copied from.
pub const LAYOUT_TRANSFER_SRC_OPTIMAL: i32 = 6;

/// The layout of an image that is copied into.
pub const LAYOUT_TRANSFER_DST_OPTIMAL: i32 = 7;

/// The access of writing a colour attachment.
pub const ACCESS_COLOR_ATTACHMENT_WRITE: u32 = 0x100;

/// The access of reading in a transfer.
pub const ACCESS_TRANSFER_READ: u32 = 0x800;

/// The access of writing in a transfer.
pub const ACCESS_TRANSFER_WRITE: u32 = 0x1000;

/// The stage before any command.
pub const STAGE_TOP_OF_PIPE: u32 = 0x1;

/// The stage in which colours are written out.
pub const STAGE_COLOR_ATTACHMENT_OUTPUT: u32 = 0x400;

/// The stage of copies.
pub const STAGE_TRANSFER: u32 = 0x1000;

/// What a layout transition waits for and what it holds back.
#[derive(Debug, Clone, Copy, PartialEq, Eq, Structural)]
pub struct LayoutTransition {
    /// The accesses that must have finished.
    pub src_access_mask: u32,
    /// The accesses that wait for the transition.
    pub dst_access_mask: u32,
    /// The stage that must have finished.
    pub src_stage: u32,
    /// The stage that waits for the transition.
    pub dst_stage: u32,
}

/// The barrier for each supported change of layout; every other change has
/// none.
pub open spec fn transition_for(old_layout: i32, new_layout: i32) -> Option<LayoutTransition> {
    if old_layout == LAYOUT_UNDEFINED && new_layout == LAYOUT_TRANSFER_DST_OPTIMAL {
        Some(
            LayoutTransition {
                src_access_mask: 0,
                dst_access_mask: ACCESS_TRANSFER_WRITE,
                src_stage: STAGE_TOP_OF_PIPE,
                dst_stage: STAGE_TRANSFER,
            },
        )
    } else if old_layout == LAYOUT_UNDEFINED && new_layout == LAYOUT_COLOR_ATTACHMENT_OPTIMAL {
        Some(
            LayoutTransition {
                src_access_mask: 0,
                dst_access_mask: ACCESS_COLOR_ATTACHMENT_WRITE,
                src_stage: STAGE_TOP_OF_PIPE,
                dst_stage: STAGE_COLOR_ATTACHMENT_OUTPUT,
            },
        )
    } else if old_layout == LAYOUT_COLOR_ATTACHMENT_OPTIMAL && new_layout
        == LAYOUT_TRANSFER_SRC_OPTIMAL {
        Some(
            LayoutTransition {
                src_access_mask: ACCESS_COLOR_ATTACHMENT_WRITE,
                dst_access_mask: ACCESS_TRANSFER_READ,
                src_stage: STAGE_COLOR_ATTACHMENT_OUTPUT,
                dst_stage: STAGE_TRANSFER,
            },
        )
    } else {
        None
    }
}

/// The barrier to record for a change of layout, or `None` where the change
/// is not supported and nothing is to be recorded.
pub fn transition_image_layout(old_layout: i32, new_layout: i32) -> (r: Option<LayoutTransition>)
    ensures
        r == transition_for(old_layout, new_layout),
{
    if old_layout == LAYOUT_UNDEFINED && new_layout == LAYOUT_TRANSFER_DST_OPTIMAL {
        Some(
            LayoutTransition {
                src_access_mask: 0,
                dst_access_mask: ACCESS_TRANSFER_WRITE,
                src_stage: STAGE_TOP_OF_PIPE,
                dst_stage: STAGE_TRANSFER,
            },
        )
    } else if old_layout == LAYOUT_UNDEFINED && new_layout == LAYOUT_COLOR_ATTACHMENT_OPTIMAL {
        Some(
            LayoutTransition {
                src_access_mask: 0,
                dst_access_mask: ACCESS_COLOR_ATTACHMENT_WRITE,
                src_stage: STAGE_TOP_OF_PIPE,
                dst_stage: STAGE_COLOR_ATTACHMENT_OUTPUT,
            },
        )
    } else if old_layout == LAYOUT_COLOR_ATTACHMENT_OPTIMAL && new_layout
        == LAYOUT_TRANSFER_SRC_OPTIMAL {
        Some(
            LayoutTransition {
                src_access_mask: ACCESS_COLOR_ATTACHMENT_WRITE,
                dst_access_mask: ACCESS_TRANSFER_READ,
                src_stage: STAGE_COLOR_ATTACHMENT_OUTPUT,
                dst_stage: STAGE_TRANSFER,
            },
        )
    } else {
        None
    }
}

} // verus!
