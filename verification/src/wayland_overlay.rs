//! The overlay on a Wayland output: which output it is on, when it can be kept and when it has
//! to be made anew, and how its pixels are laid out.
//!
//! Whoever talks to the compositor hands in what it reports and carries out what is planned.

use vstd::prelude::*;
use vstd::string::*;

use crate::binary_float::Single;
use crate::linux_wayland::{
    is_layout, logical_output_size_from, logical_size, output_id_from, output_identity,
    output_label, output_label_from, overlay_buffer_len, overlay_layout, requested_width,
    NativeDisplay, OverlayLayout, MAX_OVERLAY_BYTES,
};
use crate::text::{borrowed, optional_text, same_text};

verus! {

/// A mode of an output.
#[derive(Debug, Clone, Copy, PartialEq, Eq)]
pub struct OutputMode {
    pub dimensions: (i32, i32),
    pub current: bool,
}

/// What the compositor reports of an output.
#[derive(Debug)]
pub struct OutputDescription {
    pub id: u32,
    pub name: Option<String>,
    pub description: Option<String>,
    pub model: String,
    pub logical_size: Option<(i32, i32)>,
    pub scale_factor: i32,
    pub modes: Vec<OutputMode>,
}

/// The dimensions of the first current mode.
pub open spec fn current_mode(modes: Seq<OutputMode>) -> Option<(i32, i32)>
    decreases modes.len(),
{
    if modes.len() == 0 {
        None
    } else if modes[0].current {
        Some(modes[0].dimensions)
    } else {
        current_mode(modes.drop_first())
    }
}

fn find_current_mode(modes: &[OutputMode]) -> (result: Option<(i32, i32)>)
    ensures
        result == current_mode(modes@),
{
    let mut i: usize = 0;
    assert(modes@.skip(0) =~= modes@);
    while i < modes.len()
        invariant
            i <= modes@.len(),
            current_mode(modes@) == current_mode(modes@.skip(i as int)),
        decreases modes@.len() - i,
    {
        if modes[i].current {
            return Some(modes[i].dimensions);
        }
        assert(modes@.skip(i as int).drop_first() =~= modes@.skip(i + 1));
        i += 1;
    }
    None
}

impl OutputDescription {
    /// The output's identity.
    pub open spec fn identity(self) -> Seq<char> {
        output_identity(self.id, optional_text(self.name))
    }

    /// The output's size in logical pixels.
    pub open spec fn size(self) -> Option<(u32, u32)> {
        match logical_size(
            self.logical_size,
            self.scale_factor as int,
            current_mode(self.modes@),
        ) {
            Some((width, height)) => Some((width as u32, height as u32)),
            None => None,
        }
    }

    /// The output's identity.
    pub fn output_id(&self) -> (result: String)
        ensures
            result@ == self.identity(),
    {
        output_id_from(self.id, borrowed(&self.name))
    }

    /// The output's size in logical pixels.
    pub fn logical_output_size(&self) -> (result: Option<(u32, u32)>)
        ensures
            result == self.size(),
    {
        logical_output_size_from(
            self.logical_size,
            self.scale_factor,
            find_current_mode(self.modes.as_slice()),
        )
    }

    /// The output's name for people.
    pub fn output_label(&self) -> (result: String)
        ensures
            result@ == output_label(
                optional_text(self.name),
                optional_text(self.description),
                self.model@,
                self.size(),
            ),
    {
        output_label_from(
            borrowed(&self.name),
            borrowed(&self.description),
            self.model.as_str(),
            self.logical_output_size(),
        )
    }
}

/// The outputs as a user can choose from them, in the compositor's order.
pub fn displays(outputs: &[OutputDescription]) -> (result: Vec<NativeDisplay>)
    ensures
        result@.len() == outputs@.len(),
        forall|i: int|
            0 <= i < outputs@.len() ==> (#[trigger] result@[i]).id@ == outputs@[i].identity()
                && result@[i].label@ == output_label(
                optional_text(outputs@[i].name),
                optional_text(outputs@[i].description),
                outputs@[i].model@,
                outputs@[i].size(),
            ),
{
    let mut result: Vec<NativeDisplay> = Vec::new();
    let mut i: usize = 0;
    while i < outputs.len()
        invariant
            i <= outputs@.len(),
            result@.len() == i,
            forall|j: int|
                0 <= j < i ==> (#[trigger] result@[j]).id@ == outputs@[j].identity()
                    && result@[j].label@ == output_label(
                    optional_text(outputs@[j].name),
                    optional_text(outputs@[j].description),
                    outputs@[j].model@,
                    outputs@[j].size(),
                ),
        decreases outputs@.len() - i,
    {
        result.push(
            NativeDisplay { id: outputs[i].output_id(), label: outputs[i].output_label() },
        );
        i += 1;
    }
    result
}

/// The displays that the overlay starts with: there has to be one.
pub fn initial_displays(outputs: &[OutputDescription]) -> (result: Result<
    Vec<NativeDisplay>,
    String,
>)
    ensures
        match result {
            Ok(displays) => outputs@.len() > 0 && displays@.len() == outputs@.len() && forall|
                i: int,
            |
                0 <= i < outputs@.len() ==> (#[trigger] displays@[i]).id@
                    == outputs@[i].identity() && displays@[i].label@ == output_label(
                    optional_text(outputs@[i].name),
                    optional_text(outputs@[i].description),
                    outputs@[i].model@,
                    outputs@[i].size(),
                ),
            Err(message) => outputs@.len() == 0 && message@
                == "Wayland compositor reported no outputs"@,
        },
{
    if outputs.len() == 0 {
        return Err("Wayland compositor reported no outputs".to_owned());
    }
    Ok(displays(outputs))
}

/// The identities of outputs.
pub open spec fn identities(outputs: Seq<OutputDescription>) -> Seq<Seq<char>> {
    Seq::new(outputs.len(), |i: int| outputs[i].identity())
}

/// The number of the output for an overlay: the first with an identity, else the first of all.
pub open spec fn place_for(outputs: Seq<OutputDescription>, display_id: Seq<char>) -> Option<int> {
    match identities(outputs).index_of_first(display_id) {
        Some(index) => Some(index),
        None => if outputs.len() > 0 {
            Some(0)
        } else {
            None
        },
    }
}

fn find_place(outputs: &[OutputDescription], display_id: &str) -> (result: Option<usize>)
    ensures
        match result {
            Some(index) => place_for(outputs@, display_id@) == Some(index as int) && index
                < outputs@.len(),
            None => place_for(outputs@, display_id@) is None,
        },
{
    let ghost ids = identities(outputs@);
    let mut i: usize = 0;
    while i < outputs.len()
        invariant
            i <= outputs@.len(),
            ids == identities(outputs@),
            forall|j: int| 0 <= j < i ==> ids[j] != display_id@,
        decreases outputs@.len() - i,
    {
        let id = outputs[i].output_id();
        if same_text(id.as_str(), display_id) {
            proof {
                assert(ids[i as int] == display_id@);
                ids.index_of_first_ensures(display_id@);
            }
            return Some(i);
        }
        assert(ids[i as int] != display_id@);
        i += 1;
    }
    proof {
        ids.index_of_first_ensures(display_id@);
    }
    if outputs.len() > 0 {
        Some(0)
    } else {
        None
    }
}

/// Whether the width that a request asks for on its output, times the image's height, is a
/// number that the layout can be computed with.
pub open spec fn can_be_laid_out(outputs: Seq<OutputDescription>, request: ShowRequest) -> bool {
    match place_for(outputs, request.display_id@) {
        Some(index) => match outputs[index].size() {
            Some(monitor) => request.frame.image_size[0] > 0 ==> requested_width(
                monitor.0 as nat,
                request.width_percent as nat,
            ) * request.frame.image_size[1] <= u64::MAX,
            None => true,
        },
        None => true,
    }
}

/// Whether the layout for a request can be computed.
pub fn can_lay_out(outputs: &[OutputDescription], request: &ShowRequest) -> (result: bool)
    ensures
        result == can_be_laid_out(outputs@, *request),
{
    let index = match find_place(outputs, request.display_id.as_str()) {
        Some(index) => index,
        None => return true,
    };
    let monitor = match outputs[index].logical_output_size() {
        Some(monitor) => monitor,
        None => return true,
    };
    assert(monitor.0 * request.width_percent <= 0xffff_ffff * 0xff) by (nonlinear_arith)
        requires
            monitor.0 <= 0xffff_ffff,
            request.width_percent <= 0xff,
    ;
    let share: u64 = monitor.0 as u64 * request.width_percent as u64 / 100;
    let width: u64 = if share == 0 {
        1
    } else {
        share
    };
    let height: u64 = request.frame.image_size[1] as u64;
    assert(width * height <= 0xffff_ffff_ffff_ffff * 0xffff_ffff) by (nonlinear_arith)
        requires
            width <= 0xffff_ffff_ffff_ffff,
            height <= 0xffff_ffff,
    ;
    request.frame.image_size[0] == 0 || width as u128 * height as u128 <= 0xffff_ffff_ffff_ffff
}

/// A picture for the overlay.
#[derive(Debug)]
pub struct OverlayFrame {
    pub rgba: Vec<u8>,
    pub image_size: [u32; 2],
    pub opacity_percent: u8,
}

/// An overlay that is up, or about to be.
#[derive(Debug)]
pub struct ActiveOverlay {
    pub output_id: String,
    pub logical_size: (u32, u32),
    pub margin: (i32, i32),
    pub scale: i32,
    pub frame: OverlayFrame,
    pub configured: bool,
}

/// The contents of an `ActiveOverlay`.
#[verifier::ext_equal]
pub ghost struct Overlay {
    pub output: Seq<char>,
    pub logical_size: (u32, u32),
    pub margin: (i32, i32),
    pub scale: i32,
    pub rgba: Seq<u8>,
    pub image_size: [u32; 2],
    pub opacity_percent: u8,
    pub configured: bool,
}

impl View for ActiveOverlay {
    type V = Overlay;

    open spec fn view(&self) -> Overlay {
        Overlay {
            output: self.output_id@,
            logical_size: self.logical_size,
            margin: self.margin,
            scale: self.scale,
            rgba: self.frame.rgba@,
            image_size: self.frame.image_size,
            opacity_percent: self.frame.opacity_percent,
            configured: self.configured,
        }
    }
}

/// A wish to show a picture.
#[derive(Debug)]
pub struct ShowRequest {
    pub display_id: String,
    pub frame: OverlayFrame,
    pub width_percent: u8,
    pub position: [Single; 2],
}

/// An overlay that is to replace the present one.
#[derive(Debug)]
pub struct NewOverlay {
    /// The number of its output.
    pub output: usize,
    pub overlay: ActiveOverlay,
    /// The bytes of its pixels; an error ends the attempt once the surface is set up.
    pub pool_bytes: Result<usize, String>,
}

/// What to do to show a picture.
#[derive(Debug)]
pub enum ShowPlan {
    /// Nothing yet: the surface is not configured.
    Keep,
    /// Draw the present overlay again.
    Redraw,
    /// Take down the present overlay, if there is one, and set up a new one.
    Recreate(NewOverlay),
}

/// The pixels of an overlay in one pixel of its output: the output's scale, where the
/// compositor's version knows scales.
pub open spec fn overlay_scale(compositor_version: u32, scale_factor: i32) -> i32 {
    if compositor_version >= 3 && scale_factor > 1 {
        scale_factor
    } else {
        1
    }
}

/// Whether a result holds the bytes of an overlay's pixels, at least four, or the error where
/// they are too many.
pub open spec fn is_pool_size(result: Result<usize, String>, size: (u32, u32), scale: i32) -> bool {
    let bytes = (size.0 * scale) * (size.1 * scale) * 4;
    if bytes > u64::MAX {
        result matches Err(message) && message@ == "overlay pixel buffer is too large"@
    } else if bytes > MAX_OVERLAY_BYTES {
        result matches Err(message) && message@ == "overlay pixel buffer exceeds 256 MiB"@
    } else {
        result matches Ok(length) && length == if bytes < 4 {
            4
        } else {
            bytes
        }
    }
}

/// The overlay that a request asks for on an output.
pub open spec fn wanted(
    request: ShowRequest,
    output: OutputDescription,
    layout: OverlayLayout,
    compositor_version: u32,
) -> Overlay {
    Overlay {
        output: output.identity(),
        logical_size: layout.size,
        margin: layout.margin,
        scale: overlay_scale(compositor_version, output.scale_factor),
        rgba: request.frame.rgba@,
        image_size: request.frame.image_size,
        opacity_percent: request.frame.opacity_percent,
        configured: false,
    }
}

/// Whether an overlay is in the place that another wants.
pub open spec fn in_place(present: Overlay, wanted: Overlay) -> bool {
    &&& present.output == wanted.output
    &&& present.logical_size == wanted.logical_size
    &&& present.margin == wanted.margin
    &&& present.scale == wanted.scale
}

/// Whether a request is answered with an overlay in its place: by another picture where the
/// present overlay is there already, else by a new overlay.
pub open spec fn is_answer(
    before: Option<Overlay>,
    after: Option<Overlay>,
    wanted: Overlay,
    output: int,
    plan: ShowPlan,
) -> bool {
    if before is Some && in_place(before->0, wanted) {
        &&& after == Some(Overlay { configured: before->0.configured, ..wanted })
        &&& if before->0.configured {
            plan is Redraw
        } else {
            plan is Keep
        }
    } else {
        &&& after is None
        &&& plan matches ShowPlan::Recreate(new)
        &&& new.output == output
        &&& new.overlay@ == wanted
        &&& is_pool_size(new.pool_bytes, wanted.logical_size, wanted.scale)
    }
}

/// The overlay, if it is up.
pub struct OverlaySurface {
    active: Option<ActiveOverlay>,
}

impl View for OverlaySurface {
    type V = Option<Overlay>;

    closed spec fn view(&self) -> Option<Overlay> {
        match self.active {
            Some(active) => Some(active@),
            None => None,
        }
    }
}

impl OverlaySurface {
    /// No overlay.
    pub fn new() -> (result: Self)
        ensures
            result@ is None,
    {
        OverlaySurface { active: None }
    }

    /// Plans how to show a picture.
    pub fn show(
        &mut self,
        outputs: &[OutputDescription],
        compositor_version: u32,
        request: ShowRequest,
    ) -> (result: Result<ShowPlan, String>)
        requires
            can_be_laid_out(outputs@, request),
        ensures
            match place_for(outputs@, request.display_id@) {
                None => {
                    &&& final(self)@ == old(self)@
                    &&& result matches Err(message)
                    &&& message@ == "Wayland compositor reported no usable output"@
                },
                Some(index) => {
                    let output = outputs@[index];
                    match output.size() {
                        None => {
                            &&& final(self)@ == old(self)@
                            &&& result matches Err(message)
                            &&& message@ == "Wayland output "@ + request.display_id@
                                + " has no active size"@
                        },
                        Some(monitor) => exists|layout: Result<OverlayLayout, String>|
                            {
                                &&& #[trigger] is_layout(
                                    layout,
                                    monitor,
                                    request.frame.image_size,
                                    request.width_percent,
                                    request.position,
                                )
                                &&& match layout {
                                    Err(error) => {
                                        &&& final(self)@ == old(self)@
                                        &&& result matches Err(message)
                                        &&& message@ == error@
                                    },
                                    Ok(layout) => {
                                        &&& result matches Ok(plan)
                                        &&& is_answer(
                                            old(self)@,
                                            final(self)@,
                                            wanted(request, output, layout, compositor_version),
                                            index,
                                            plan,
                                        )
                                    },
                                }
                            },
                    }
                },
            },
    {
        let index = match find_place(outputs, request.display_id.as_str()) {
            Some(index) => index,
            None => return Err("Wayland compositor reported no usable output".to_owned()),
        };
        let output = &outputs[index];
        let monitor = match output.logical_output_size() {
            Some(monitor) => monitor,
            None => {
                let mut message = "Wayland output ".to_owned();
                message.append(request.display_id.as_str());
                message.append(" has no active size");
                return Err(message);
            },
        };
        let layout = overlay_layout(
            monitor,
            request.frame.image_size,
            request.width_percent,
            request.position,
        );
        assert(is_layout(
            layout,
            monitor,
            request.frame.image_size,
            request.width_percent,
            request.position,
        ));
        let layout = match layout {
            Ok(layout) => layout,
            Err(message) => return Err(message),
        };
        let scale: i32 = if compositor_version >= 3 && output.scale_factor > 1 {
            output.scale_factor
        } else {
            1
        };
        let output_id = output.output_id();
        let ghost goal = wanted(request, *output, layout, compositor_version);
        let present = self.active.take();
        if let Some(active) = present {
            if active.output_id == output_id && active.logical_size.0 == layout.size.0
                && active.logical_size.1 == layout.size.1 && active.margin.0 == layout.margin.0
                && active.margin.1 == layout.margin.1 && active.scale == scale {
                let configured = active.configured;
                self.active = Some(
                    ActiveOverlay {
                        output_id: active.output_id,
                        logical_size: active.logical_size,
                        margin: active.margin,
                        scale: active.scale,
                        frame: request.frame,
                        configured,
                    },
                );
                assert(in_place(old(self)@->0, goal));
                return if configured {
                    Ok(ShowPlan::Redraw)
                } else {
                    Ok(ShowPlan::Keep)
                };
            }
        }
        let pool_bytes = match overlay_buffer_len(layout.size, scale) {
            Ok(bytes) => Ok(
                if bytes < 4 {
                    4
                } else {
                    bytes
                },
            ),
            Err(message) => Err(message),
        };
        let overlay = ActiveOverlay {
            output_id,
            logical_size: layout.size,
            margin: layout.margin,
            scale,
            frame: request.frame,
            configured: false,
        };
        Ok(ShowPlan::Recreate(NewOverlay { output: index, overlay, pool_bytes }))
    }

    /// Takes note that a new overlay is set up.
    pub fn activate(&mut self, overlay: ActiveOverlay)
        ensures
            final(self)@ == Some(overlay@),
    {
        self.active = Some(overlay);
    }

    /// Takes the overlay down: because it is to be hidden, or because its surface or its output
    /// is gone.
    pub fn take_down(&mut self)
        ensures
            final(self)@ is None,
    {
        self.active = None;
    }

    /// Takes note that the compositor configured the overlay's surface, with a size where both
    /// of its sides have pixels. The overlay, if there is one, is then drawn.
    pub fn configure(&mut self, new_size: (u32, u32)) -> (draw: bool)
        ensures
            draw == (old(self)@ is Some),
            final(self)@ == match old(self)@ {
                None => None,
                Some(overlay) => Some(
                    Overlay {
                        logical_size: if new_size.0 > 0 && new_size.1 > 0 {
                            new_size
                        } else {
                            overlay.logical_size
                        },
                        configured: true,
                        ..overlay
                    },
                ),
            },
    {
        match self.active.take() {
            None => false,
            Some(active) => {
                let logical_size = if new_size.0 > 0 && new_size.1 > 0 {
                    new_size
                } else {
                    active.logical_size
                };
                self.active = Some(
                    ActiveOverlay {
                        output_id: active.output_id,
                        logical_size,
                        margin: active.margin,
                        scale: active.scale,
                        frame: active.frame,
                        configured: true,
                    },
                );
                true
            },
        }
    }

    /// The overlay, if it is up.
    pub fn active(&self) -> (result: Option<&ActiveOverlay>)
        ensures
            match result {
                Some(active) => self@ == Some(active@),
                None => self@ is None,
            },
    {
        match &self.active {
            Some(active) => Some(active),
            None => None,
        }
    }
}

/// How an overlay's pixels lie in its buffer.
#[derive(Debug, Clone, Copy, PartialEq, Eq, Structural)]
pub struct BufferGeometry {
    pub width: i32,
    pub height: i32,
    pub stride: i32,
}

/// How an overlay's pixels lie in a buffer, or why they do not.
pub fn buffer_geometry(logical_size: (u32, u32), scale: i32) -> (result: Result<
    BufferGeometry,
    String,
>)
    ensures
        ({
            let width = logical_size.0 * scale;
            let height = logical_size.1 * scale;
            match result {
                Ok(geometry) => scale >= 0 && width * 4 <= i32::MAX && height <= i32::MAX
                    && geometry.width == width && geometry.height == height && geometry.stride
                    == width * 4,
                Err(message) => message@ == if scale < 0 {
                    "invalid Wayland scale"@
                } else if width > u32::MAX {
                    "overlay width is too large"@
                } else if height > u32::MAX {
                    "overlay height is too large"@
                } else if width * 4 > i32::MAX {
                    "overlay stride is too large"@
                } else {
                    "overlay height is too large"@
                } && !(scale >= 0 && width * 4 <= i32::MAX && height <= i32::MAX),
            }
        }),
{
    if scale < 0 {
        return Err("invalid Wayland scale".to_owned());
    }
    assert(0 <= logical_size.0 * scale <= 0xffff_ffff * 0x7fff_ffff && 0 <= logical_size.1 * scale
        <= 0xffff_ffff * 0x7fff_ffff) by (nonlinear_arith)
        requires
            0 <= logical_size.0 <= 0xffff_ffff,
            0 <= logical_size.1 <= 0xffff_ffff,
            0 <= scale <= 0x7fff_ffff,
    ;
    let width: u64 = logical_size.0 as u64 * scale as u64;
    let height: u64 = logical_size.1 as u64 * scale as u64;
    if width > 0xffff_ffff {
        return Err("overlay width is too large".to_owned());
    }
    if height > 0xffff_ffff {
        return Err("overlay height is too large".to_owned());
    }
    if width * 4 > 0x7fff_ffff {
        return Err("overlay stride is too large".to_owned());
    }
    if height > 0x7fff_ffff {
        return Err("overlay height is too large".to_owned());
    }
    Ok(
        BufferGeometry {
            width: width as i32,
            height: height as i32,
            stride: (width * 4) as i32,
        },
    )
}

/// What part of the overlay changed, in the terms that the surface's version knows.
#[derive(Debug, Clone, Copy, PartialEq, Eq, Structural)]
pub enum Damage {
    /// Pixels of the buffer.
    Buffer { width: i32, height: i32 },
    /// Logical pixels of the surface.
    Surface { width: i32, height: i32 },
}

/// What part of the overlay changed: all of it.
pub fn damage(
    surface_version: u32,
    geometry: BufferGeometry,
    logical_size: (u32, u32),
) -> (result: Result<Damage, String>)
    ensures
        if surface_version >= 4 {
            result == Ok::<Damage, String>(
                Damage::Buffer { width: geometry.width, height: geometry.height },
            )
        } else if logical_size.0 > i32::MAX {
            result matches Err(message) && message@ == "overlay logical width is too large"@
        } else if logical_size.1 > i32::MAX {
            result matches Err(message) && message@ == "overlay logical height is too large"@
        } else {
            result == Ok::<Damage, String>(
                Damage::Surface { width: logical_size.0 as i32, height: logical_size.1 as i32 },
            )
        },
{
    if surface_version >= 4 {
        return Ok(Damage::Buffer { width: geometry.width, height: geometry.height });
    }
    if logical_size.0 > 0x7fff_ffff {
        return Err("overlay logical width is too large".to_owned());
    }
    if logical_size.1 > 0x7fff_ffff {
        return Err("overlay logical height is too large".to_owned());
    }
    Ok(Damage::Surface { width: logical_size.0 as i32, height: logical_size.1 as i32 })
}

/// An overlay whose pixels fit the memory set aside for them can be laid out in a buffer of
/// that size, unless it is so long and thin that a side is out of range.
pub proof fn pool_holds_the_buffer(
    pool_bytes: Result<usize, String>,
    geometry: BufferGeometry,
    logical_size: (u32, u32),
    scale: i32,
)
    requires
        is_pool_size(pool_bytes, logical_size, scale),
        pool_bytes is Ok,
        geometry.width == logical_size.0 * scale,
        geometry.height == logical_size.1 * scale,
        geometry.stride == geometry.width * 4,
    ensures
        geometry.stride * geometry.height <= pool_bytes->Ok_0 <= MAX_OVERLAY_BYTES,
{
    let width = logical_size.0 * scale;
    let height = logical_size.1 * scale;
    assert((width * 4) * height == width * height * 4) by (nonlinear_arith);
}

/// The current mode is the first one that is marked so, and there is none where none is.
pub proof fn first_current_mode_counts(modes: Seq<OutputMode>, i: int)
    requires
        0 <= i < modes.len(),
        forall|j: int| 0 <= j < i ==> !(#[trigger] modes[j]).current,
    ensures
        modes[i].current ==> current_mode(modes) == Some(modes[i].dimensions),
        i == modes.len() - 1 && !modes[i].current ==> current_mode(modes) is None,
        current_mode(Seq::empty()) is None,
    decreases modes.len(),
{
    if i > 0 {
        assert(!modes[0].current);
        let rest = modes.drop_first();
        assert forall|j: int| 0 <= j < i - 1 implies !(#[trigger] rest[j]).current by {
            assert(rest[j] == modes[j + 1]);
        }
        first_current_mode_counts(rest, i - 1);
    } else if modes.len() == 1 && !modes[0].current {
        assert(modes.drop_first() =~= Seq::empty());
        assert(current_mode(modes.drop_first()) is None);
    }
}

/// An overlay comes up on the first output with the wanted identity, on the first of all where
/// none has it, and nowhere where there is none.
pub proof fn overlay_comes_up_on_the_wanted_output(
    outputs: Seq<OutputDescription>,
    display_id: Seq<char>,
    i: int,
)
    ensures
        0 <= i < outputs.len() && outputs[i].identity() == display_id && (forall|j: int|
            0 <= j < i ==> (#[trigger] outputs[j]).identity() != display_id) ==> place_for(
            outputs,
            display_id,
        ) == Some(i),
        outputs.len() > 0 && (forall|j: int|
            0 <= j < outputs.len() ==> (#[trigger] outputs[j]).identity() != display_id)
            ==> place_for(outputs, display_id) == Some(0int),
        outputs.len() == 0 ==> place_for(outputs, display_id) is None,
{
    let ids = identities(outputs);
    ids.index_of_first_ensures(display_id);
    if 0 <= i < outputs.len() && outputs[i].identity() == display_id {
        assert(ids[i] == display_id);
        if forall|j: int| 0 <= j < i ==> (#[trigger] outputs[j]).identity() != display_id {
            let found = ids.index_of_first(display_id)->0;
            if found < i {
                assert(outputs[found].identity() == display_id);
            }
        }
    }
    if ids.index_of_first(display_id) is Some {
        let found = ids.index_of_first(display_id)->0;
        assert(outputs[found].identity() == ids[found]);
    }
}

/// The pixels of an overlay are as fine as the output's where the compositor's version is at least
/// three and the output is finer than one to one.
pub proof fn overlays_are_as_fine_as_the_output(compositor_version: u32, scale_factor: i32)
    ensures
        compositor_version >= 3 && scale_factor >= 2 ==> overlay_scale(
            compositor_version,
            scale_factor,
        ) == scale_factor,
        compositor_version < 3 || scale_factor < 2 ==> overlay_scale(
            compositor_version,
            scale_factor,
        ) == 1,
{
}

/// The memory set aside for an overlay has four bytes for each of its pixels in the output's
/// scale, and there is an error instead where that is more than 256 MiB.
pub proof fn memory_holds_every_pixel(
    pool_bytes: Result<usize, String>,
    size: (u32, u32),
    scale: i32,
)
    requires
        is_pool_size(pool_bytes, size, scale),
        size.0 >= 1,
        size.1 >= 1,
        scale >= 1,
    ensures
        ({
            let pixels = (size.0 * scale) * (size.1 * scale);
            &&& 4 * pixels <= 268_435_456 <==> pool_bytes is Ok
            &&& pool_bytes matches Ok(bytes) ==> bytes == 4 * pixels
        }),
{
    assert(size.0 * scale >= 1 && size.1 * scale >= 1) by (nonlinear_arith)
        requires
            size.0 >= 1,
            size.1 >= 1,
            scale >= 1,
    ;
    let (w, h) = (size.0 * scale, size.1 * scale);
    assert(w * h >= 1) by (nonlinear_arith)
        requires
            w >= 1,
            h >= 1,
    ;
}

/// What a request asks for: its picture and its opacity, on the output, in the size and at the
/// place of the layout.
pub proof fn requests_are_kept(
    request: ShowRequest,
    output: OutputDescription,
    layout: OverlayLayout,
    compositor_version: u32,
)
    ensures
        ({
            let overlay = wanted(request, output, layout, compositor_version);
            &&& overlay.output == output.identity()
            &&& overlay.logical_size == layout.size
            &&& overlay.margin == layout.margin
            &&& overlay.rgba == request.frame.rgba@
            &&& overlay.image_size == request.frame.image_size
            &&& overlay.opacity_percent == request.frame.opacity_percent
            &&& !overlay.configured
        }),
{
}

/// A picture for an overlay that is where it is wanted already takes the place of the one before,
/// at once where the surface is configured. For any other place the overlay is set up anew.
pub proof fn overlay_is_set_up_anew_only_for_another_place(
    before: Option<Overlay>,
    after: Option<Overlay>,
    wanted: Overlay,
    output: int,
    plan: ShowPlan,
)
    requires
        is_answer(before, after, wanted, output, plan),
    ensures
        ({
            let same_place = before matches Some(present) && present.output == wanted.output
                && present.logical_size == wanted.logical_size && present.margin == wanted.margin
                && present.scale == wanted.scale;
            &&& same_place ==> {
                &&& after is Some
                &&& after->0.rgba == wanted.rgba
                &&& after->0.image_size == wanted.image_size
                &&& after->0.opacity_percent == wanted.opacity_percent
                &&& after->0.output == wanted.output
                &&& after->0.logical_size == wanted.logical_size
                &&& after->0.margin == wanted.margin
                &&& after->0.scale == wanted.scale
                &&& after->0.configured == before->0.configured
                &&& before->0.configured ==> plan is Redraw
                &&& !before->0.configured ==> plan is Keep
            }
            &&& !same_place ==> {
                &&& after is None
                &&& plan matches ShowPlan::Recreate(new)
                &&& new.output == output
                &&& new.overlay@ == wanted
            }
        }),
{
}

} // verus!
