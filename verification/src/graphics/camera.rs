//! The camera: pan offset and zoom, and the maps between screen space
//! (pixels, origin top-left, Y downward) and world space (ticks, Y upward).

use crate::graphics::vertex::Point;
use crate::units::{
    clamp, clamp_coord, clamp_coord_i128, clamp_i128, coord_ok, div_round, div_round_i128,
    lemma_div_round_bounds, lemma_div_round_exact, lemma_div_round_monotone,
    lemma_div_round_unique, zoom_ok, COORD_MAX, WORLD_SCALE, ZOOM_MAX, ZOOM_MIN, ZOOM_ONE,
};
use vstd::prelude::*;

verus! {

/// The size of the viewport in pixels.
#[derive(Clone, Copy, Debug, PartialEq, Eq, Structural)]
pub struct Size {
    pub width: u32,
    pub height: u32,
}

/// Pan offset in ticks and zoom in millionths.
#[derive(Clone, Copy, Debug, PartialEq, Eq, Structural)]
pub struct Camera {
    pub x_offset: i64,
    pub y_offset: i64,
    pub zoom: i64,
}

/// What the view transform is built from: the scale, the translation
/// `-offset * zoom` on each axis, and the window size.
#[derive(Clone, Copy, Debug, PartialEq, Eq, Structural)]
pub struct CameraUniform {
    pub scale: i64,
    pub shift_x: i64,
    pub shift_y: i64,
    pub window_width: u32,
    pub window_height: u32,
}

/// The world x of screen column `sx`, before it is brought into range.
pub open spec fn world_x_exact(sx: int, width: int, cam: Camera) -> int {
    div_round((2 * sx - width) * WORLD_SCALE, 2 * cam.zoom) + cam.x_offset
}

/// The world y of screen row `sy`, before it is brought into range.
pub open spec fn world_y_exact(sy: int, height: int, cam: Camera) -> int {
    div_round((height - 2 * sy) * WORLD_SCALE, 2 * cam.zoom) + cam.y_offset
}

/// `world = (screen - viewport / 2) / zoom + pan`, with the screen Y
/// axis inverted, rounded to the nearest tick and brought into range.
pub open spec fn screen_to_world_spec(sx: int, sy: int, size: Size, cam: Camera) -> Point {
    Point::clamped(
        world_x_exact(sx, size.width as int, cam),
        world_y_exact(sy, size.height as int, cam),
    )
}

/// The screen column of world x `wx`: `(wx - pan) * zoom + viewport / 2`,
/// rounded to the nearest pixel, ties downward.
pub open spec fn screen_x(wx: int, width: int, cam: Camera) -> int {
    -div_round(-((wx - cam.x_offset) * (2 * cam.zoom) + width * WORLD_SCALE), 2 * WORLD_SCALE)
}

/// The screen row of world y `wy`: `viewport / 2 - (wy - pan) * zoom`,
/// rounded to the nearest pixel, ties upward.
pub open spec fn screen_y(wy: int, height: int, cam: Camera) -> int {
    div_round(height * WORLD_SCALE - (wy - cam.y_offset) * (2 * cam.zoom), 2 * WORLD_SCALE)
}

impl Camera {
    /// The offsets are storable and the zoom lies in `[ZOOM_MIN, ZOOM_MAX]`.
    pub open spec fn wf(&self) -> bool {
        &&& coord_ok(self.x_offset as int)
        &&& coord_ok(self.y_offset as int)
        &&& zoom_ok(self.zoom as int)
    }

    /// The camera after `pan(dx, dy)`.
    pub open spec fn panned(self, dx: int, dy: int) -> Camera {
        Camera {
            x_offset: clamp_coord(self.x_offset + dx) as i64,
            y_offset: clamp_coord(self.y_offset + dy) as i64,
            zoom: self.zoom,
        }
    }

    /// The zoom after multiplying by `factor` millionths and clamping into
    /// the one range of the camera, `[ZOOM_MIN, ZOOM_MAX]`.
    pub open spec fn scaled_zoom(self, factor: int) -> int {
        clamp(div_round(self.zoom * factor, ZOOM_ONE as int), ZOOM_MIN as int, ZOOM_MAX as int)
    }

    /// The camera after `zoom(factor)`.
    pub open spec fn zoomed(self, factor: int) -> Camera {
        Camera {
            zoom: self.scaled_zoom(factor) as i64,
            ..self
        }
    }

    /// The offset that keeps world coordinate `w` on its pixel when the
    /// zoom goes from `self.zoom` to `new_zoom`:
    /// `w - (w - offset) * old_zoom / new_zoom`.
    pub open spec fn anchored_offset(self, offset: int, w: int, new_zoom: int) -> int {
        w - div_round((w - offset) * self.zoom, new_zoom)
    }

    /// The camera after `zoom_at_cursor(factor, wx, wy)`.
    pub open spec fn zoomed_at(self, factor: int, wx: int, wy: int) -> Camera {
        let z = self.scaled_zoom(factor);
        Camera {
            x_offset: clamp_coord(self.anchored_offset(self.x_offset as int, wx, z)) as i64,
            y_offset: clamp_coord(self.anchored_offset(self.y_offset as int, wy, z)) as i64,
            zoom: z as i64,
        }
    }

    /// A camera at `(x, y)` with the given zoom, each brought into its range.
    pub fn new(x: i64, y: i64, zoom: i64) -> (cam: Camera)
        ensures
            cam.wf(),
            cam.x_offset == clamp_coord(x as int),
            cam.y_offset == clamp_coord(y as int),
            cam.zoom == clamp(zoom as int, ZOOM_MIN as int, ZOOM_MAX as int),
    {
        Camera {
            x_offset: clamp_coord_i128(x as i128),
            y_offset: clamp_coord_i128(y as i128),
            zoom: clamp_i128(zoom as i128, ZOOM_MIN, ZOOM_MAX),
        }
    }

    /// What the view transform of a window of the given size is built from.
    pub fn to_uniform(&self, window_width: u32, window_height: u32) -> (u: CameraUniform)
        requires
            self.wf(),
        ensures
            u.scale == self.zoom,
            u.shift_x == -self.x_offset * self.zoom,
            u.shift_y == -self.y_offset * self.zoom,
            u.window_width == window_width,
            u.window_height == window_height,
    {
        let z: i128 = self.zoom as i128;
        let x: i128 = -(self.x_offset as i128);
        let y: i128 = -(self.y_offset as i128);
        assert(-1_000_000_000_000_000_000 <= x * z <= 1_000_000_000_000_000_000) by (nonlinear_arith)
            requires
                -1_000_000_000 <= x <= 1_000_000_000,
                0 <= z <= 1_000_000_000,
        ;
        assert(-1_000_000_000_000_000_000 <= y * z <= 1_000_000_000_000_000_000) by (nonlinear_arith)
            requires
                -1_000_000_000 <= y <= 1_000_000_000,
                0 <= z <= 1_000_000_000,
        ;
        CameraUniform {
            scale: self.zoom,
            shift_x: (x * z) as i64,
            shift_y: (y * z) as i64,
            window_width,
            window_height,
        }
    }

    /// Adds `(dx, dy)` to the offset.
    pub fn pan(&mut self, dx: i64, dy: i64)
        requires
            old(self).wf(),
        ensures
            *final(self) == old(self).panned(dx as int, dy as int),
            final(self).wf(),
    {
        self.x_offset = clamp_coord_i128(self.x_offset as i128 + dx as i128);
        self.y_offset = clamp_coord_i128(self.y_offset as i128 + dy as i128);
    }

    fn scale_zoom(&self, factor: i64) -> (z: i64)
        requires
            self.wf(),
        ensures
            z == self.scaled_zoom(factor as int),
            zoom_ok(z as int),
    {
        let z: i128 = self.zoom as i128;
        let f: i128 = factor as i128;
        assert(-0x2000_0000_0000_0000_0000_0000 <= z * f <= 0x2000_0000_0000_0000_0000_0000)
            by (nonlinear_arith)
            requires
                0 <= z <= 0x4000_0000,
                -0x8000_0000_0000_0000 <= f <= 0x8000_0000_0000_0000,
        ;
        clamp_i128(div_round_i128(z * f, ZOOM_ONE as i128), ZOOM_MIN, ZOOM_MAX)
    }

    /// Multiplies the zoom by `factor` millionths, then clamps it.
    pub fn zoom(&mut self, factor: i64)
        requires
            old(self).wf(),
        ensures
            *final(self) == old(self).zoomed(factor as int),
            final(self).wf(),
    {
        self.zoom = self.scale_zoom(factor);
    }

    fn anchor_offset(&self, offset: i64, w: i64, new_zoom: i64) -> (r: i64)
        requires
            self.wf(),
            coord_ok(offset as int),
            zoom_ok(new_zoom as int),
        ensures
            r == clamp_coord(self.anchored_offset(offset as int, w as int, new_zoom as int)),
    {
        let d: i128 = w as i128 - offset as i128;
        let z: i128 = self.zoom as i128;
        assert(-0x4000_0000_0000_0000_0000_0000 <= d * z <= 0x4000_0000_0000_0000_0000_0000)
            by (nonlinear_arith)
            requires
                0 <= z <= 0x4000_0000,
                -0x1_0000_0000_0000_0000 <= d <= 0x1_0000_0000_0000_0000,
        ;
        let q: i128 = div_round_i128(d * z, new_zoom as i128);
        proof {
            crate::units::lemma_div_round_magnitude(
                d * z,
                new_zoom as int,
                0x4000_0000_0000_0000_0000_0000,
            );
        }
        clamp_coord_i128(w as i128 - q)
    }

    /// Multiplies the zoom by `factor` millionths, clamps it, and moves
    /// the offset so that the world point under the cursor stays there.
    pub fn zoom_at_cursor(&mut self, factor: i64, mouse_world_x: i64, mouse_world_y: i64)
        requires
            old(self).wf(),
        ensures
            *final(self) == old(self).zoomed_at(
                factor as int,
                mouse_world_x as int,
                mouse_world_y as int,
            ),
            final(self).wf(),
    {
        let new_zoom = self.scale_zoom(factor);
        let x = self.anchor_offset(self.x_offset, mouse_world_x, new_zoom);
        let y = self.anchor_offset(self.y_offset, mouse_world_y, new_zoom);
        self.x_offset = x;
        self.y_offset = y;
        self.zoom = new_zoom;
    }
}

/// The world position shown at a screen position.
pub fn screen_to_world(screen_x: i64, screen_y: i64, size: Size, camera: &Camera) -> (p: Point)
    requires
        camera.wf(),
    ensures
        p == screen_to_world_spec(screen_x as int, screen_y as int, size, *camera),
        p.in_range(),
{
    let cen_x: i128 = 2 * (screen_x as i128) - size.width as i128;
    let cen_y: i128 = size.height as i128 - 2 * (screen_y as i128);
    let k: i128 = WORLD_SCALE as i128;
    let d: i128 = 2 * (camera.zoom as i128);
    assert(-0x1_0000_0000_0000_0000_0000_0000 <= cen_x * k <= 0x1_0000_0000_0000_0000_0000_0000)
        by (nonlinear_arith)
        requires
            k == 1_000_000_000,
            -0x2_0000_0000_0000_0000 <= cen_x <= 0x2_0000_0000_0000_0000,
    ;
    assert(-0x1_0000_0000_0000_0000_0000_0000 <= cen_y * k <= 0x1_0000_0000_0000_0000_0000_0000)
        by (nonlinear_arith)
        requires
            k == 1_000_000_000,
            -0x2_0000_0000_0000_0000 <= cen_y <= 0x2_0000_0000_0000_0000,
    ;
    let qx: i128 = div_round_i128(cen_x * k, d);
    let qy: i128 = div_round_i128(cen_y * k, d);
    proof {
        crate::units::lemma_div_round_magnitude(
            cen_x * k,
            d as int,
            0x1_0000_0000_0000_0000_0000_0000,
        );
        crate::units::lemma_div_round_magnitude(
            cen_y * k,
            d as int,
            0x1_0000_0000_0000_0000_0000_0000,
        );
    }
    Point::clamp_from(qx + camera.x_offset as i128, qy + camera.y_offset as i128)
}

/// The screen position at which a world position is shown.
pub fn world_to_screen(world_x: i64, world_y: i64, size: Size, camera: &Camera) -> (s: (i64, i64))
    requires
        camera.wf(),
        coord_ok(world_x as int),
        coord_ok(world_y as int),
    ensures
        s.0 == screen_x(world_x as int, size.width as int, *camera),
        s.1 == screen_y(world_y as int, size.height as int, *camera),
{
    let k: i128 = WORLD_SCALE as i128;
    let z2: i128 = 2 * (camera.zoom as i128);
    let dx: i128 = world_x as i128 - camera.x_offset as i128;
    let dy: i128 = world_y as i128 - camera.y_offset as i128;
    let w: i128 = size.width as i128;
    let h: i128 = size.height as i128;
    assert(-4_000_000_000_000_000_000 <= dx * z2 <= 4_000_000_000_000_000_000) by (nonlinear_arith)
        requires
            -2_000_000_000 <= dx <= 2_000_000_000,
            0 <= z2 <= 2_000_000_000,
    ;
    assert(-4_000_000_000_000_000_000 <= dy * z2 <= 4_000_000_000_000_000_000) by (nonlinear_arith)
        requires
            -2_000_000_000 <= dy <= 2_000_000_000,
            0 <= z2 <= 2_000_000_000,
    ;
    assert(0 <= w * k <= 5_000_000_000_000_000_000) by (nonlinear_arith)
        requires
            0 <= w <= 5_000_000_000,
            k == 1_000_000_000,
    ;
    assert(0 <= h * k <= 5_000_000_000_000_000_000) by (nonlinear_arith)
        requires
            0 <= h <= 5_000_000_000,
            k == 1_000_000_000,
    ;
    let nx: i128 = -(dx * z2 + w * k);
    let ny: i128 = h * k - dy * z2;
    let qx: i128 = div_round_i128(nx, 2 * k);
    let qy: i128 = div_round_i128(ny, 2 * k);
    proof {
        crate::units::lemma_div_round_magnitude(nx as int, 2 * k, 9_000_000_000_000_000_000);
        crate::units::lemma_div_round_magnitude(ny as int, 2 * k, 9_000_000_000_000_000_000);
    }
    ((-qx) as i64, qy as i64)
}

/// Panning by `a` and then by `b` is panning by `a + b`, as long as the
/// first step stays in range.
pub proof fn lemma_pan_adds(cam: Camera, ax: int, ay: int, bx: int, by: int)
    requires
        cam.wf(),
        coord_ok(cam.x_offset + ax),
        coord_ok(cam.y_offset + ay),
    ensures
        cam.panned(ax, ay).panned(bx, by) == cam.panned(ax + bx, ay + by),
{
}

/// The zoom is clamp-idempotent: zooming a valid camera by a factor of
/// one changes nothing, whether through [`Camera::zoom`] or through
/// [`Camera::zoom_at_cursor`], and both keep the zoom in the same range;
/// in particular, clamping a second time has no further effect.
pub proof fn lemma_zoom_one_is_identity(cam: Camera, factor: int, wx: int, wy: int)
    requires
        cam.wf(),
    ensures
        cam.zoomed(ZOOM_ONE as int) == cam,
        cam.zoomed_at(ZOOM_ONE as int, wx, wy) == cam,
        cam.zoomed(factor).zoomed(ZOOM_ONE as int) == cam.zoomed(factor),
        cam.zoomed_at(factor, wx, wy).zoom == cam.zoomed(factor).zoom,
        zoom_ok(cam.zoomed(factor).zoom as int),
{
    let z = cam.zoomed(factor).zoom as int;
    lemma_div_round_exact(z, ZOOM_ONE as int);
    lemma_div_round_exact(cam.zoom as int, ZOOM_ONE as int);
    lemma_div_round_exact(wx - cam.x_offset, cam.zoom as int);
    lemma_div_round_exact(wy - cam.y_offset, cam.zoom as int);
}

/// Camera inverse law: a screen position mapped into the world and back
/// is the same screen position, exactly, for every camera in its valid
/// range and every screen position that shows a point of the storable
/// world. A screen position beyond an edge of that world is mapped to
/// the edge, and from there to the screen position of the edge, which
/// lies on the side of the world from it.
pub proof fn lemma_screen_world_screen(sx: int, sy: int, size: Size, cam: Camera)
    requires
        cam.wf(),
    ensures
        ({
            let ex = world_x_exact(sx, size.width as int, cam);
            let ey = world_y_exact(sy, size.height as int, cam);
            let w = screen_to_world_spec(sx, sy, size, cam);
            let back_x = screen_x(w.x as int, size.width as int, cam);
            let back_y = screen_y(w.y as int, size.height as int, cam);
            &&& screen_x(ex, size.width as int, cam) == sx
            &&& screen_y(ey, size.height as int, cam) == sy
            &&& coord_ok(ex) ==> back_x == sx
            &&& coord_ok(ey) ==> back_y == sy
            &&& ex > COORD_MAX ==> w.x == COORD_MAX && back_x <= sx
            &&& ex < -COORD_MAX ==> w.x == -COORD_MAX && back_x >= sx
            &&& ey > COORD_MAX ==> w.y == COORD_MAX && back_y >= sy
            &&& ey < -COORD_MAX ==> w.y == -COORD_MAX && back_y <= sy
        }),
{
    let k = WORLD_SCALE as int;
    let z = cam.zoom as int;
    let w = size.width as int;
    let h = size.height as int;
    let qx = div_round((2 * sx - w) * k, 2 * z);
    let qy = div_round((h - 2 * sy) * k, 2 * z);
    lemma_div_round_bounds((2 * sx - w) * k, 2 * z);
    lemma_div_round_bounds((h - 2 * sy) * k, 2 * z);
    let ex = world_x_exact(sx, w, cam);
    let ey = world_y_exact(sy, h, cam);
    assert(ex - cam.x_offset == qx);
    assert(ey - cam.y_offset == qy);
    // x: ties downward
    let nx = -(qx * (2 * z) + w * k);
    assert(2 * nx - 2 * k < 2 * (2 * k) * (-sx) <= 2 * nx + 2 * k) by (nonlinear_arith)
        requires
            nx == -(qx * (2 * z) + w * k),
            2 * ((2 * sx - w) * k) - 2 * z < 2 * (2 * z) * qx <= 2 * ((2 * sx - w) * k) + 2 * z,
            0 < z <= k,
    ;
    lemma_div_round_unique(nx, 2 * k, -sx);
    // y: ties upward
    let ny = h * k - qy * (2 * z);
    assert(2 * ny - 2 * k < 2 * (2 * k) * sy <= 2 * ny + 2 * k) by (nonlinear_arith)
        requires
            ny == h * k - qy * (2 * z),
            2 * ((h - 2 * sy) * k) - 2 * z < 2 * (2 * z) * qy <= 2 * ((h - 2 * sy) * k) + 2 * z,
            0 < z <= k,
    ;
    lemma_div_round_unique(ny, 2 * k, sy);
    // beyond the edge: the screen position follows the world position
    let p = screen_to_world_spec(sx, sy, size, cam);
    lemma_screen_follows_world(p.x as int, ex, p.y as int, ey, size, cam);
    lemma_screen_follows_world(ex, p.x as int, ey, p.y as int, size, cam);
}

/// The screen position follows the world position: further right in the
/// world is not further left on the screen, and further up in the world
/// is not further down on the screen.
pub proof fn lemma_screen_follows_world(
    x1: int,
    x2: int,
    y1: int,
    y2: int,
    size: Size,
    cam: Camera,
)
    requires
        cam.wf(),
    ensures
        x1 <= x2 ==> screen_x(x1, size.width as int, cam) <= screen_x(x2, size.width as int, cam),
        y1 <= y2 ==> screen_y(y1, size.height as int, cam) >= screen_y(
            y2,
            size.height as int,
            cam,
        ),
{
    let k = WORLD_SCALE as int;
    let z = cam.zoom as int;
    let w = size.width as int;
    let h = size.height as int;
    if x1 <= x2 {
        let n1 = -((x1 - cam.x_offset) * (2 * z) + w * k);
        let n2 = -((x2 - cam.x_offset) * (2 * z) + w * k);
        assert(n2 <= n1) by (nonlinear_arith)
            requires
                x1 <= x2,
                z > 0,
                n1 == -((x1 - cam.x_offset) * (2 * z) + w * k),
                n2 == -((x2 - cam.x_offset) * (2 * z) + w * k),
        ;
        lemma_div_round_monotone(n2, n1, 2 * k);
    }
    if y1 <= y2 {
        let n1 = h * k - (y1 - cam.y_offset) * (2 * z);
        let n2 = h * k - (y2 - cam.y_offset) * (2 * z);
        assert(n2 <= n1) by (nonlinear_arith)
            requires
                y1 <= y2,
                z > 0,
                n1 == h * k - (y1 - cam.y_offset) * (2 * z),
                n2 == h * k - (y2 - cam.y_offset) * (2 * z),
        ;
        lemma_div_round_monotone(n2, n1, 2 * k);
    }
}

/// Zoom-at-cursor fixed point, seen from the world: after
/// `zoom_at_cursor(factor, w)` the world point `w` lies as far from the
/// centre of the viewport on the screen as before, `(w - offset) * zoom`
/// being the same up to half a tick of the new zoom, which is no more
/// than half a pixel. This holds of every world point and every factor,
/// also where the new zoom is held at an end of its range, as long as
/// the new offset lies in the storable world.
pub proof fn lemma_zoom_at_cursor_keeps_the_point(cam: Camera, factor: int, wx: int, wy: int)
    requires
        cam.wf(),
        coord_ok(cam.anchored_offset(cam.x_offset as int, wx, cam.scaled_zoom(factor))),
        coord_ok(cam.anchored_offset(cam.y_offset as int, wy, cam.scaled_zoom(factor))),
    ensures
        ({
            let after = cam.zoomed_at(factor, wx, wy);
            let before_x = (wx - cam.x_offset) * cam.zoom;
            let before_y = (wy - cam.y_offset) * cam.zoom;
            let after_x = (wx - after.x_offset) * after.zoom;
            let after_y = (wy - after.y_offset) * after.zoom;
            &&& after.wf()
            &&& after.zoom == cam.scaled_zoom(factor)
            &&& -after.zoom <= 2 * (after_x - before_x) <= after.zoom
            &&& -after.zoom <= 2 * (after_y - before_y) <= after.zoom
            &&& after.zoom <= WORLD_SCALE
        }),
{
    let z2 = cam.scaled_zoom(factor);
    let after = cam.zoomed_at(factor, wx, wy);
    let nx = (wx - cam.x_offset) * cam.zoom;
    let ny = (wy - cam.y_offset) * cam.zoom;
    let qx = div_round(nx, z2);
    let qy = div_round(ny, z2);
    lemma_div_round_bounds(nx, z2);
    lemma_div_round_bounds(ny, z2);
    assert(wx - after.x_offset == qx);
    assert(wy - after.y_offset == qy);
    assert(-z2 <= 2 * (qx * z2 - nx) <= z2) by (nonlinear_arith)
        requires
            2 * nx - z2 < 2 * z2 * qx <= 2 * nx + z2,
    ;
    assert(-z2 <= 2 * (qy * z2 - ny) <= z2) by (nonlinear_arith)
        requires
            2 * ny - z2 < 2 * z2 * qy <= 2 * ny + z2,
    ;
}

/// Zoom-at-cursor fixed point: let `w` be the world position under the
/// screen position `(sx, sy)`. After `zoom_at_cursor(factor, w)` the same
/// screen position shows `w` again, up to the rounding of one tick for
/// each of the two divisions made afterwards and of half a tick, scaled
/// by the change of zoom, for the one made before:
/// `|after - w| <= 1 + old_zoom / (2 * new_zoom)` on each axis, which is
/// no more than a tick and half a pixel of the new zoom. This holds for
/// every factor, also where the new zoom is held at an end of its range,
/// as long as the screen position shows a point of the storable world
/// and the new offset lies in it: an offset that has to be brought into
/// range takes the point under the cursor along.
pub proof fn lemma_zoom_at_cursor_fixed_point(
    sx: int,
    sy: int,
    size: Size,
    cam: Camera,
    factor: int,
)
    requires
        cam.wf(),
        coord_ok(world_x_exact(sx, size.width as int, cam)),
        coord_ok(world_y_exact(sy, size.height as int, cam)),
        ({
            let w = screen_to_world_spec(sx, sy, size, cam);
            let z = cam.scaled_zoom(factor);
            &&& coord_ok(cam.anchored_offset(cam.x_offset as int, w.x as int, z))
            &&& coord_ok(cam.anchored_offset(cam.y_offset as int, w.y as int, z))
        }),
    ensures
        ({
            let w = screen_to_world_spec(sx, sy, size, cam);
            let after = cam.zoomed_at(factor, w.x as int, w.y as int);
            let ex = world_x_exact(sx, size.width as int, after) - w.x;
            let ey = world_y_exact(sy, size.height as int, after) - w.y;
            &&& after.wf()
            &&& -(2 * after.zoom + cam.zoom) <= 2 * after.zoom * ex <= 2 * after.zoom + cam.zoom
            &&& -(2 * after.zoom + cam.zoom) <= 2 * after.zoom * ey <= 2 * after.zoom + cam.zoom
        }),
{
    let w = screen_to_world_spec(sx, sy, size, cam);
    let after = cam.zoomed_at(factor, w.x as int, w.y as int);
    let k = WORLD_SCALE as int;
    let z = cam.zoom as int;
    let z2 = after.zoom as int;
    lemma_anchor_error((2 * sx - size.width) * k, z, z2);
    lemma_anchor_error((size.height - 2 * sy) * k, z, z2);
}

/// The rounding error of re-anchoring: with `q` the rounded `n / 2z`,
/// the rounded `n / 2z2` and the rounded `q * z / z2` differ by at most
/// `1 + z / (2 * z2)`.
proof fn lemma_anchor_error(n: int, z: int, z2: int)
    requires
        z > 0,
        z2 > 0,
    ensures
        ({
            let q = div_round(n, 2 * z);
            let e = div_round(n, 2 * z2) - div_round(q * z, z2);
            -(2 * z2 + z) <= 2 * z2 * e <= 2 * z2 + z
        }),
{
    let q = div_round(n, 2 * z);
    let a = div_round(n, 2 * z2);
    let b = div_round(q * z, z2);
    lemma_div_round_bounds(n, 2 * z);
    lemma_div_round_bounds(n, 2 * z2);
    lemma_div_round_bounds(q * z, z2);
    assert(-(2 * z2 + z) <= 2 * z2 * (a - b) <= 2 * z2 + z) by (nonlinear_arith)
        requires
            z > 0,
            z2 > 0,
            2 * n - 2 * z < 2 * (2 * z) * q <= 2 * n + 2 * z,
            2 * n - 2 * z2 < 2 * (2 * z2) * a <= 2 * n + 2 * z2,
            2 * (q * z) - z2 < 2 * z2 * b <= 2 * (q * z) + z2,
    ;
}

} // verus!
