//! The surface that the stack is drawn on: its size, its swapchain and when to draw.

use crate::config::Corner;
use vstd::prelude::*;

verus! {

/// A size in buffer pixels.
#[derive(Debug, Clone, Copy, PartialEq, Eq, Structural)]
pub struct PixelSize {
    pub width: u32,
    pub height: u32,
}

/// What is to be done to the swapchain.
#[derive(Debug, Clone, Copy, PartialEq, Eq, Structural)]
pub enum SwapchainAction {
    /// It has the right size.
    Keep,
    /// Give it this size.
    Resize(PixelSize),
    /// There is none yet: make one of this size.
    Create(PixelSize),
}

/// What became of the next frame of the swapchain.
#[derive(Debug, Clone, Copy, PartialEq, Eq, Structural)]
pub enum FrameStatus {
    /// It can be drawn on.
    Ready,
    /// The swapchain no longer fits the surface.
    Stale,
    /// There is none, for another reason.
    Unavailable,
}

/// What is to be done about the next frame.
#[derive(Debug, Clone, Copy, PartialEq, Eq, Structural)]
pub enum FrameAction {
    Render,
    /// Configure the swapchain anew; drawing is tried again.
    Reconfigure,
    Skip,
}

/// The screen edges that a surface is anchored to.
#[derive(Debug, Clone, Copy, PartialEq, Eq, Structural)]
pub struct Anchor {
    pub top: bool,
    pub bottom: bool,
    pub left: bool,
    pub right: bool,
}

/// The surface of the stack.
#[derive(Debug)]
pub struct NotifySurface {
    /// Logical size.
    pub width: u32,
    pub height: u32,
    /// Buffer scale from the compositor.
    pub scale: i32,
    pub dirty: bool,
    /// When the next animation frame is wanted, nanoseconds since the daemon started.
    pub anim_deadline: Option<u128>,
    /// The size of the swapchain, once there is one.
    pub swapchain: Option<PixelSize>,
}

/// A logical length in buffer pixels; never less than one.
pub open spec fn in_pixels(length: u32, scale: i32) -> u32 {
    if length * (scale as u32) >= 1 {
        (length * (scale as u32)) as u32
    } else {
        1
    }
}

impl NotifySurface {
    /// Whether the size in buffer pixels can be told.
    pub open spec fn fits(self) -> bool {
        &&& self.width * (self.scale as u32) <= u32::MAX
        &&& self.height * (self.scale as u32) <= u32::MAX
    }

    /// The size in buffer pixels.
    pub open spec fn pixels(self) -> PixelSize {
        PixelSize {
            width: in_pixels(self.width, self.scale),
            height: in_pixels(self.height, self.scale),
        }
    }

    /// What the swapchain needs to have the size of the surface.
    pub open spec fn swapchain_need(self) -> SwapchainAction {
        match self.swapchain {
            Some(size) => if size == self.pixels() {
                SwapchainAction::Keep
            } else {
                SwapchainAction::Resize(self.pixels())
            },
            None => SwapchainAction::Create(self.pixels()),
        }
    }

    /// The surface with a swapchain of its size.
    pub open spec fn with_swapchain(self) -> NotifySurface {
        NotifySurface { swapchain: Some(self.pixels()), ..self }
    }

    /// The surface with the size that the compositor grants; zero leaves a length as it is.
    pub open spec fn granted(self, width: u32, height: u32) -> NotifySurface {
        NotifySurface {
            width: if width > 0 {
                width
            } else {
                self.width
            },
            height: if height > 0 {
                height
            } else {
                self.height
            },
            ..self
        }
    }

    /// A surface of the given logical size, before the compositor has configured it.
    pub fn new(width: u32, height: u32) -> (surface: NotifySurface)
        ensures
            surface == (NotifySurface {
                width,
                height,
                scale: 1,
                dirty: false,
                anim_deadline: None,
                swapchain: None,
            }),
    {
        NotifySurface {
            width,
            height,
            scale: 1,
            dirty: false,
            anim_deadline: None,
            swapchain: None,
        }
    }

    /// Takes the size that the compositor grants; zero leaves a length as it is.
    pub fn grant(&mut self, width: u32, height: u32)
        ensures
            *final(self) == old(self).granted(width, height),
    {
        if width > 0 {
            self.width = width;
        }
        if height > 0 {
            self.height = height;
        }
    }

    /// Tells what the swapchain needs to have the size of the surface, and takes it as done.
    pub fn configure_swapchain(&mut self) -> (action: SwapchainAction)
        requires
            old(self).fits(),
        ensures
            action == old(self).swapchain_need(),
            *final(self) == old(self).with_swapchain(),
    {
        let scale: u32 = self.scale as u32;
        let width: u32 = self.width * scale;
        let height: u32 = self.height * scale;
        let size = PixelSize {
            width: if width >= 1 {
                width
            } else {
                1
            },
            height: if height >= 1 {
                height
            } else {
                1
            },
        };
        let action = match self.swapchain {
            Some(current) => if current.width == size.width && current.height == size.height {
                SwapchainAction::Keep
            } else {
                SwapchainAction::Resize(size)
            },
            None => SwapchainAction::Create(size),
        };
        self.swapchain = Some(size);
        action
    }

    /// Starts to draw: the surface is no longer dirty. `false` if there is no swapchain to draw on
    /// yet; then its first configuration makes the surface dirty again.
    pub fn begin_draw(&mut self) -> (drawable: bool)
        ensures
            drawable == old(self).swapchain is Some,
            *final(self) == (NotifySurface { dirty: false, ..*old(self) }),
    {
        self.dirty = false;
        self.swapchain.is_some()
    }

    /// Tells what to do about the next frame. A stale one makes the surface dirty, so that drawing
    /// is tried again.
    pub fn frame(&mut self, status: FrameStatus) -> (action: FrameAction)
        ensures
            action == (match status {
                FrameStatus::Ready => FrameAction::Render,
                FrameStatus::Stale => FrameAction::Reconfigure,
                FrameStatus::Unavailable => FrameAction::Skip,
            }),
            *final(self) == (NotifySurface {
                dirty: old(self).dirty || status == FrameStatus::Stale,
                ..*old(self)
            }),
    {
        match status {
            FrameStatus::Ready => FrameAction::Render,
            FrameStatus::Stale => {
                self.dirty = true;
                FrameAction::Reconfigure
            },
            FrameStatus::Unavailable => FrameAction::Skip,
        }
    }

    /// Ends drawing at `now`: notes when the next animation frame is wanted. `next_redraw_in` is
    /// the time until then in nanoseconds; without one, a wanted redraw is due at once.
    pub fn end_draw(&mut self, next_redraw_in: Option<u128>, needs_redraw: bool, now: u64)
        requires
            next_redraw_in matches Some(wait) ==> now + wait <= u128::MAX,
        ensures
            *final(self) == (NotifySurface {
                anim_deadline: match next_redraw_in {
                    Some(wait) => Some((now + wait) as u128),
                    None => if needs_redraw {
                        Some(now as u128)
                    } else {
                        None
                    },
                },
                ..*old(self)
            }),
    {
        self.anim_deadline = match next_redraw_in {
            Some(wait) => Some(now as u128 + wait),
            None => if needs_redraw {
                Some(now as u128)
            } else {
                None
            },
        };
    }

    /// Makes the surface dirty if an animation frame is due at `now`.
    pub fn tick(&mut self, now: u64)
        ensures
            *final(self) == (if old(self).anim_deadline matches Some(deadline) && deadline <= now {
                NotifySurface { anim_deadline: None, dirty: true, ..*old(self) }
            } else {
                *old(self)
            }),
    {
        if let Some(deadline) = self.anim_deadline {
            if deadline <= now as u128 {
                self.anim_deadline = None;
                self.dirty = true;
            }
        }
    }
}

/// The edges of a corner.
pub open spec fn anchor_of(corner: Corner) -> Anchor {
    let bottom = corner == Corner::BottomRight || corner == Corner::BottomLeft;
    let left = corner == Corner::TopLeft || corner == Corner::BottomLeft;
    Anchor { top: !bottom, bottom, left, right: !left }
}

/// The edges that a surface in the given corner is anchored to.
pub fn anchor(corner: Corner) -> (anchor: Anchor)
    ensures
        anchor == anchor_of(corner),
{
    match corner {
        Corner::TopRight => Anchor { top: true, bottom: false, left: false, right: true },
        Corner::TopLeft => Anchor { top: true, bottom: false, left: true, right: false },
        Corner::BottomRight => Anchor { top: false, bottom: true, left: false, right: true },
        Corner::BottomLeft => Anchor { top: false, bottom: true, left: true, right: false },
    }
}

/// The first of several choices that is preferred; the first of all if none is. This is how the
/// swapchain gets its format (one for sRGB is preferred) and its way to treat alpha (premultiplied
/// is preferred).
pub fn pick_preferred(preferred: &[bool]) -> (choice: usize)
    requires
        preferred@.len() > 0,
    ensures
        choice < preferred@.len(),
        preferred@.contains(true) ==> preferred@[choice as int],
        !preferred@.contains(true) ==> choice == 0,
        forall|i: int| 0 <= i < choice ==> !preferred@[i],
{
    let mut at: usize = 0;
    while at < preferred.len()
        invariant
            at <= preferred@.len(),
            forall|i: int| 0 <= i < at ==> !preferred@[i],
        decreases preferred@.len() - at,
    {
        if preferred[at] {
            assert(preferred@.contains(true));
            return at;
        }
        at = at + 1;
    }
    0
}

/// The swapchain is touched only where its size changes: right after it was brought to the size of
/// the surface there is nothing left to do.
pub proof fn law_configured_swapchain_is_kept(surface: NotifySurface)
    ensures
        surface.with_swapchain().swapchain_need() == SwapchainAction::Keep,
{
}

/// A length in buffer pixels is the logical length times the scale, and at least one.
pub proof fn law_size_in_pixels(surface: NotifySurface)
    requires
        surface.scale >= 0,
        surface.fits(),
    ensures
        surface.width * surface.scale >= 1 ==> surface.pixels().width == surface.width
            * surface.scale,
        surface.width * surface.scale < 1 ==> surface.pixels().width == 1,
        surface.height * surface.scale >= 1 ==> surface.pixels().height == surface.height
            * surface.scale,
        surface.height * surface.scale < 1 ==> surface.pixels().height == 1,
{
}

/// The size fits exactly if both lengths in buffer pixels do.
pub proof fn law_fits(surface: NotifySurface)
    requires
        surface.scale >= 0,
    ensures
        surface.fits() <==> surface.width * surface.scale <= u32::MAX && surface.height
            * surface.scale <= u32::MAX,
{
}

/// A swapchain is made where there is none, kept where both its lengths are right and resized
/// where one is not; afterwards it has the size of the surface, and nothing else has changed.
pub proof fn law_swapchain_follows_the_surface(surface: NotifySurface)
    ensures
        surface.swapchain is None ==> surface.swapchain_need() == SwapchainAction::Create(
            surface.pixels(),
        ),
        surface.swapchain matches Some(size) ==> {
            &&& size.width == surface.pixels().width && size.height == surface.pixels().height
                ==> surface.swapchain_need() == SwapchainAction::Keep
            &&& size.width != surface.pixels().width || size.height != surface.pixels().height
                ==> surface.swapchain_need() == SwapchainAction::Resize(surface.pixels())
        },
        surface.with_swapchain().swapchain == Some(surface.pixels()),
        surface.with_swapchain().width == surface.width,
        surface.with_swapchain().height == surface.height,
        surface.with_swapchain().scale == surface.scale,
        surface.with_swapchain().dirty == surface.dirty,
        surface.with_swapchain().anim_deadline == surface.anim_deadline,
{
}

/// A length that the compositor grants is taken, and one of zero leaves the length as it is; nothing
/// else changes.
pub proof fn law_granted_size_is_taken(surface: NotifySurface, width: u32, height: u32)
    ensures
        width > 0 ==> surface.granted(width, height).width == width,
        width == 0 ==> surface.granted(width, height).width == surface.width,
        height > 0 ==> surface.granted(width, height).height == height,
        height == 0 ==> surface.granted(width, height).height == surface.height,
        surface.granted(width, height).scale == surface.scale,
        surface.granted(width, height).dirty == surface.dirty,
        surface.granted(width, height).anim_deadline == surface.anim_deadline,
        surface.granted(width, height).swapchain == surface.swapchain,
{
}

/// A surface is anchored to the two edges that meet in its corner, and to no other.
pub proof fn law_anchored_to_the_corner(corner: Corner)
    ensures
        anchor_of(corner).top <==> corner == Corner::TopRight || corner == Corner::TopLeft,
        anchor_of(corner).bottom <==> corner == Corner::BottomRight || corner == Corner::BottomLeft,
        anchor_of(corner).left <==> corner == Corner::TopLeft || corner == Corner::BottomLeft,
        anchor_of(corner).right <==> corner == Corner::TopRight || corner == Corner::BottomRight,
{
}

} // verus!
