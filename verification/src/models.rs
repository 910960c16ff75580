use vstd::prelude::*;
use crate::error::BlenderError;
use crate::text::{string_views, chars_of, parse_i32, parsed_i32, replace_all, replace_chars, string_of};

verus! {

/// A frame number.
pub type Frame = i32;

/// Render output image formats (see Blender's command line format options).
#[derive(Debug, Copy, Clone, PartialEq, Eq, Structural)]
pub enum Format {
    TGA,
    RAWTGA,
    JPEG,
    IRIS,
    AVIRAW,
    AVIJPEG,
    PNG,
    BMP,
    HDR,
    TIFF,
}

/// The format used when none is chosen: PNG.
impl Default for Format {
    fn default() -> (f: Format)
        ensures
            f == Format::PNG,
    {
        Format::PNG
    }
}

/// The compute device Blender renders with.
#[derive(Debug, Clone, PartialEq, Eq, Structural)]
pub enum Processor {
    NONE,
    CUDA,
    OPTIX,
    HIP,
    ONEAPI,
}

/// Which hardware a render runs on.
#[derive(Debug, Clone, PartialEq, Eq, Structural)]
pub enum HardwareMode {
    CPU,
    GPU,
    BOTH,
}

/// What to render: one frame, or every frame from `start` to `end`.
#[derive(Debug, Clone, PartialEq, Eq, Hash, Structural)]
pub enum RenderMode {
    Frame(i32),
    Animation { start: i32, end: i32 },
}

/// The mode for the frames between `a` and `b`: the bounds are put in increasing order, and
/// equal bounds give a single frame.
pub open spec fn render_mode_spec(a: i32, b: i32) -> RenderMode {
    let lo = if a <= b { a } else { b };
    let hi = if a <= b { b } else { a };
    if lo == hi {
        RenderMode::Frame(lo)
    } else {
        RenderMode::Animation { start: lo, end: hi }
    }
}

impl RenderMode {
    pub fn new(start: i32, end: i32) -> (m: RenderMode)
        ensures
            m == render_mode_spec(start, end),
    {
        let mut start = start;
        let mut end = end;
        if start > end {
            let t = start;
            start = end;
            end = t;
        }
        if start == end {
            RenderMode::Frame(start)
        } else {
            RenderMode::Animation { start, end }
        }
    }

    /// Reads both bounds as decimal numbers; fails with `ParseInt` on the first that does
    /// not read.
    pub fn try_new(start: &str, end: &str) -> (res: Result<RenderMode, BlenderError>)
        ensures
            res is Ok <==> (parsed_i32(start@) is Some && parsed_i32(end@) is Some),
            res matches Ok(m) ==> m == render_mode_spec(
                parsed_i32(start@)->0,
                parsed_i32(end@)->0,
            ),
            res matches Err(e) ==> e is ParseInt,
    {
        let s = match parse_i32(start) {
            Ok(v) => v,
            Err(e) => return Err(BlenderError::ParseInt(e)),
        };
        let e = match parse_i32(end) {
            Ok(v) => v,
            Err(e) => return Err(BlenderError::ParseInt(e)),
        };
        Ok(RenderMode::new(s, e))
    }
}

/// The fields of one scene block (code `SC`) of a blend file that scene information reads.
#[derive(Debug, Clone)]
pub struct SceneBlock {
    /// `id.name`, which begins with the block code.
    pub id_name: String,
    /// `eevee.taa_render_samples`
    pub samples: i32,
    /// `r.xsch`
    pub width: i32,
    /// `r.ysch`
    pub height: i32,
    /// `r.sfra`
    pub frame_start: i32,
    /// `r.efra`
    pub frame_end: i32,
    /// `r.frs_sec`
    pub fps: u16,
    /// `r.pic`
    pub output: String,
}

/// The abstract content of a [`SceneBlock`].
pub struct SceneBlockView {
    pub id_name: Seq<char>,
    pub samples: i32,
    pub width: i32,
    pub height: i32,
    pub frame_start: i32,
    pub frame_end: i32,
    pub fps: u16,
    pub output: Seq<char>,
}

impl View for SceneBlock {
    type V = SceneBlockView;

    open spec fn view(&self) -> SceneBlockView {
        SceneBlockView {
            id_name: self.id_name@,
            samples: self.samples,
            width: self.width,
            height: self.height,
            frame_start: self.frame_start,
            frame_end: self.frame_end,
            fps: self.fps,
            output: self.output@,
        }
    }
}

/// The views of a list of scene blocks.
pub open spec fn block_views(blocks: Seq<SceneBlock>) -> Seq<SceneBlockView> {
    blocks.map_values(|b: SceneBlock| b@)
}

/// What is known of a blend file's scenes and cameras.
#[derive(Debug, Clone, PartialEq, Eq)]
pub struct SceneInfo {
    pub scenes: Vec<String>,
    pub cameras: Vec<String>,
    pub frame_start: Frame,
    pub frame_end: Frame,
    pub render_width: i32,
    pub render_height: i32,
    pub fps: u16,
    pub sample: i32,
    pub output: String,
}

/// The scene names: each block's `id.name` with every `SC` taken out.
pub open spec fn scene_names(blocks: Seq<SceneBlockView>) -> Seq<Seq<char>> {
    blocks.map_values(|b: SceneBlockView| replace_all(b.id_name, "SC"@, Seq::<char>::empty()))
}

/// The camera names: each `id.name` with every `CA` taken out.
pub open spec fn camera_names(ids: Seq<Seq<char>>) -> Seq<Seq<char>> {
    ids.map_values(|x: Seq<char>| replace_all(x, "CA"@, Seq::<char>::empty()))
}

/// `info` is the scene information of a blend file whose scene blocks are `blocks` and
/// whose camera blocks have the names `cameras`, in file order: every scene and camera is
/// listed, and the render settings are those of the last scene, or zero and empty when there
/// is none.
pub open spec fn describes(info: SceneInfo, blocks: Seq<SceneBlockView>, cameras: Seq<Seq<char>>) -> bool {
    &&& string_views(info.scenes@) == scene_names(blocks)
    &&& string_views(info.cameras@) == camera_names(cameras)
    &&& blocks.len() == 0 ==> {
        &&& info.frame_start == 0 && info.frame_end == 0
        &&& info.render_width == 0 && info.render_height == 0
        &&& info.fps == 0 && info.sample == 0
        &&& info.output@ == Seq::<char>::empty()
    }
    &&& blocks.len() > 0 ==> {
        let last = blocks.last();
        &&& info.frame_start == last.frame_start
        &&& info.frame_end == last.frame_end
        &&& info.render_width == last.width
        &&& info.render_height == last.height
        &&& info.fps == last.fps
        &&& info.sample == last.samples
        &&& info.output@ == last.output
    }
}

impl SceneInfo {
    pub fn new(
        scenes: Vec<String>,
        cameras: Vec<String>,
        frame_start: Frame,
        frame_end: Frame,
        render_width: i32,
        render_height: i32,
        fps: u16,
        sample: i32,
        output: String,
    ) -> (s: SceneInfo)
        ensures
            s.scenes == scenes,
            s.cameras == cameras,
            s.frame_start == frame_start,
            s.frame_end == frame_end,
            s.render_width == render_width,
            s.render_height == render_height,
            s.fps == fps,
            s.sample == sample,
            s.output == output,
    {
        SceneInfo {
            scenes,
            cameras,
            frame_start,
            frame_end,
            render_width,
            render_height,
            fps,
            sample,
            output,
        }
    }

    /// The first camera, or the empty string when there is none.
    pub fn selected_camera(&self) -> (res: String)
        ensures
            self.cameras.len() > 0 ==> res@ == self.cameras[0]@,
            self.cameras.len() == 0 ==> res@ == Seq::<char>::empty(),
    {
        if self.cameras.len() > 0 {
            self.cameras[0].clone()
        } else {
            String::new()
        }
    }

    /// The first scene, or the empty string when there is none.
    pub fn selected_scene(&self) -> (res: String)
        ensures
            self.scenes.len() > 0 ==> res@ == self.scenes[0]@,
            self.scenes.len() == 0 ==> res@ == Seq::<char>::empty(),
    {
        if self.scenes.len() > 0 {
            self.scenes[0].clone()
        } else {
            String::new()
        }
    }

    /// Scene information from the scene blocks and the camera names (`id.name` of each
    /// `CA` block) of a blend file, in file order (see [`describes`]).
    pub fn process(blocks: &Vec<SceneBlock>, camera_ids: &Vec<String>) -> (res: Result<
        SceneInfo,
        BlenderError,
    >)
        ensures
            res matches Ok(info) && describes(info, block_views(blocks@), string_views(camera_ids@)),
    {
        let sc = chars_of("SC");
        let ca = chars_of("CA");
        proof {
            reveal_strlit("SC");
            reveal_strlit("CA");
        }
        let empty: Vec<char> = Vec::new();
        let mut info = SceneInfo::new(Vec::new(), Vec::new(), 0, 0, 0, 0, 0, 0, String::new());
        let mut i: usize = 0;
        while i < blocks.len()
            invariant
                i <= blocks.len(),
                sc@ == "SC"@,
                sc@.len() > 0,
                empty@ == Seq::<char>::empty(),
                string_views(info.scenes@) == scene_names(block_views(blocks@).take(i as int)),
                info.cameras@.len() == 0,
                i == 0 ==> {
                    &&& info.frame_start == 0 && info.frame_end == 0
                    &&& info.render_width == 0 && info.render_height == 0
                    &&& info.fps == 0 && info.sample == 0
                    &&& info.output@ == Seq::<char>::empty()
                },
                i > 0 ==> {
                    let last = blocks@[i - 1];
                    &&& info.frame_start == last.frame_start
                    &&& info.frame_end == last.frame_end
                    &&& info.render_width == last.width
                    &&& info.render_height == last.height
                    &&& info.fps == last.fps
                    &&& info.sample == last.samples
                    &&& info.output@ == last.output@
                },
            decreases blocks.len() - i,
        {
            let block = &blocks[i];
            let id = chars_of(block.id_name.as_str());
            let name = string_of(replace_chars(&id, &sc, &empty).as_slice());
            info.sample = block.samples;
            info.render_width = block.width;
            info.render_height = block.height;
            info.frame_start = block.frame_start;
            info.frame_end = block.frame_end;
            info.fps = block.fps;
            info.output = block.output.clone();
            let ghost old_scenes = info.scenes@;
            info.scenes.push(name);
            proof {
                assert(string_views(info.scenes@) =~= string_views(old_scenes).push(name@));
                assert(blocks@.take(i + 1) =~= blocks@.take(i as int).push(blocks@[i as int]));
                assert(block_views(blocks@).take(i + 1) =~= block_views(blocks@).take(i as int).push(
                    blocks@[i as int]@,
                ));
            }
            i = i + 1;
        }
        assert(block_views(blocks@).take(blocks.len() as int) =~= block_views(blocks@));
        let mut cameras: Vec<String> = Vec::new();
        let mut j: usize = 0;
        while j < camera_ids.len()
            invariant
                j <= camera_ids.len(),
                ca@ == "CA"@,
                ca@.len() > 0,
                empty@ == Seq::<char>::empty(),
                string_views(cameras@) == camera_names(string_views(camera_ids@).take(j as int)),
            decreases camera_ids.len() - j,
        {
            let id = chars_of(camera_ids[j].as_str());
            let name = string_of(replace_chars(&id, &ca, &empty).as_slice());
            let ghost old_cameras = cameras@;
            cameras.push(name);
            proof {
                assert(string_views(cameras@) =~= string_views(old_cameras).push(name@));
                assert(camera_ids@.take(j + 1) =~= camera_ids@.take(j as int).push(camera_ids@[j as int]));
                assert(string_views(camera_ids@).take(j + 1) =~= string_views(camera_ids@).take(j as int).push(
                    camera_ids@[j as int]@,
                ));
            }
            j = j + 1;
        }
        assert(string_views(camera_ids@).take(camera_ids.len() as int) =~= string_views(camera_ids@));
        info.cameras = cameras;
        Ok(info)
    }
}

/// The order in which the two bounds of a render are given does not matter.
pub proof fn law_render_mode_bounds_unordered(a: i32, b: i32)
    ensures
        render_mode_spec(a, b) == render_mode_spec(b, a),
{
}

/// An animation always runs forward, from a lower to a higher frame, and a single frame is
/// only given for equal bounds.
pub proof fn law_render_mode_forward(a: i32, b: i32)
    ensures
        render_mode_spec(a, b) matches RenderMode::Animation { start, end } ==> start < end && (
        (start == a && end == b) || (start == b && end == a)),
        render_mode_spec(a, b) matches RenderMode::Frame(f) ==> f == a && f == b,
{
}

} // verus!
