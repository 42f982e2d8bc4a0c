use vstd::prelude::*;

verus! {

/// The most track pills drawn in one frame.
pub const MAX_RENDER_INSTANCES: usize = 64;

/// The order in which a frame's track pills are drawn. Pills are added from
/// the last queued track back to the first; a hovered pill is kept aside to
/// be drawn last, on top, and a later hovered pill takes its place.
pub struct DrawOrder<T> {
    /// The pills drawn below, in queue order.
    pub pills: Vec<T>,
    /// The hovered pill, drawn on top.
    pub foreground: Option<T>,
}

impl<T> DrawOrder<T> {
    /// How many pills the frame holds so far.
    pub open spec fn count(&self) -> int {
        self.pills@.len() + if self.foreground is Some { 1int } else { 0int }
    }

    /// An empty frame.
    pub fn new() -> (order: Self)
        ensures
            order.pills@ == Seq::<T>::empty(),
            order.foreground is None,
    {
        DrawOrder { pills: Vec::new(), foreground: None }
    }

    /// Whether the frame holds as many pills as it can draw.
    pub fn full(&self) -> (full: bool)
        ensures
            full == (self.count() >= MAX_RENDER_INSTANCES),
    {
        let held = if self.foreground.is_some() { 1usize } else { 0usize };
        self.pills.len() >= MAX_RENDER_INSTANCES - held
    }

    /// Adds the pill of the next track back in the queue: on top when it is
    /// hovered, replacing an earlier hovered pill, else below the others.
    pub fn add(&mut self, pill: T, hovered: bool)
        requires
            old(self).count() < MAX_RENDER_INSTANCES,
        ensures
            hovered ==> final(self).foreground == Some(pill) && final(self).pills@ == old(self).pills@,
            !hovered ==> final(self).foreground == old(self).foreground && final(self).pills@ == seq![pill]
                + old(self).pills@,
            final(self).count() <= MAX_RENDER_INSTANCES,
    {
        if hovered {
            self.foreground = Some(pill);
        } else {
            self.pills.insert(0, pill);
            assert(self.pills@ =~= seq![pill] + old(self).pills@);
        }
    }

    /// The pills in drawing order: those below, then the hovered one.
    pub fn finish(self) -> (pills: Vec<T>)
        ensures
            pills@ == match self.foreground {
                Some(top) => self.pills@.push(top),
                None => self.pills@,
            },
            pills@.len() == self.count(),
    {
        let mut pills = self.pills;
        if let Some(top) = self.foreground {
            pills.push(top);
        }
        pills
    }
}

/// How the bar's surface composites with what lies below.
#[derive(Clone, Copy, PartialEq, Eq, Structural, Debug)]
pub enum AlphaMode {
    PreMultiplied,
    PostMultiplied,
    /// Whatever the surface does by default.
    Auto,
}

/// The alpha mode the bar asks of its surface: premultiplied when the
/// surface offers it, else postmultiplied, else the surface's default.
pub fn choose_alpha_mode(premultiplied: bool, postmultiplied: bool) -> (mode: AlphaMode)
    ensures
        mode == if premultiplied {
            AlphaMode::PreMultiplied
        } else if postmultiplied {
            AlphaMode::PostMultiplied
        } else {
            AlphaMode::Auto
        },
{
    if premultiplied {
        AlphaMode::PreMultiplied
    } else if postmultiplied {
        AlphaMode::PostMultiplied
    } else {
        AlphaMode::Auto
    }
}

/// The 8-bit surface formats the bar prefers.
#[derive(Clone, Copy, PartialEq, Eq, Structural, Debug)]
pub enum SurfaceFormat {
    Rgba8Unorm,
    Bgra8Unorm,
}

/// The surface format the bar asks for: RGBA when offered, else BGRA;
/// `None` leaves the surface's first format.
pub fn choose_format(rgba: bool, bgra: bool) -> (format: Option<SurfaceFormat>)
    ensures
        format == if rgba {
            Some(SurfaceFormat::Rgba8Unorm)
        } else if bgra {
            Some(SurfaceFormat::Bgra8Unorm)
        } else {
            None
        },
{
    if rgba {
        Some(SurfaceFormat::Rgba8Unorm)
    } else if bgra {
        Some(SurfaceFormat::Bgra8Unorm)
    } else {
        None
    }
}

} // verus!
