//! Where screenshots of workspaces go, which monitor to take one of, and the
//! layout of the picture made of one.

use vstd::prelude::*;
use vstd::string::*;

verus! {

/// The file that a screenshot of the workspace `name` is saved to.
pub open spec fn screenshot_path_text(name: Seq<char>) -> Seq<char> {
    "/tmp/"@ + name + ".png"@
}

/// The file that a screenshot of the workspace `workspace_name` is saved to.
pub fn screenshot_path(workspace_name: &str) -> (path: String)
    ensures
        path@ == screenshot_path_text(workspace_name@),
{
    let mut path = String::from_str("/tmp/");
    path.append(workspace_name);
    path.append(".png");
    path
}

/// `i` is the first position of a monitor named `wanted`.
pub open spec fn is_first_monitor(names: Seq<String>, wanted: Seq<char>, i: int) -> bool {
    &&& 0 <= i < names.len()
    &&& names[i]@ == wanted
    &&& forall|j: int| 0 <= j < i ==> #[trigger] names[j]@ != wanted
}

/// The position of the first monitor named `monitor_name`, of which the
/// screenshot is taken; none where no monitor has that name.
pub fn find_monitor(monitor_names: &Vec<String>, monitor_name: &str) -> (index: Option<usize>)
    ensures
        match index {
            Some(i) => is_first_monitor(monitor_names@, monitor_name@, i as int),
            None => forall|j: int| 0 <= j < monitor_names@.len()
                ==> #[trigger] monitor_names@[j]@ != monitor_name@,
        },
{
    let wanted = String::from_str(monitor_name);
    let n = monitor_names.len();
    for k in 0..n
        invariant
            n == monitor_names@.len(),
            wanted@ == monitor_name@,
            forall|j: int| 0 <= j < k ==> #[trigger] monitor_names@[j]@ != monitor_name@,
    {
        if monitor_names[k] == wanted {
            return Some(k);
        }
    }
    None
}

/// How the bytes of an RGBA screenshot are laid out, in the terms of a pixel
/// buffer: 8 bits a sample, with an alpha channel.
pub struct PixbufLayout {
    pub width: i32,
    pub height: i32,
    pub row_stride: i32,
    pub has_alpha: bool,
    pub bits_per_sample: i32,
}

/// The pixel buffer layout of an RGBA image of `width` by `height` pixels
/// whose rows are `height_stride` bytes apart. The numbers are converted to
/// `i32` as `as` does, keeping the low 32 bits.
pub fn pixbuf_layout(width: u32, height: u32, height_stride: usize) -> (layout: PixbufLayout)
    ensures
        layout.width == width as i32,
        layout.height == height as i32,
        layout.row_stride == height_stride as i32,
        layout.has_alpha,
        layout.bits_per_sample == 8,
{
    PixbufLayout {
        width: #[verifier::truncate] (width as i32),
        height: #[verifier::truncate] (height as i32),
        row_stride: #[verifier::truncate] (height_stride as i32),
        has_alpha: true,
        bits_per_sample: 8,
    }
}

} // verus!
