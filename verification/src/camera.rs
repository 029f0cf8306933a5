//! The camera: where the view is centred and how far it is zoomed out.
//!
//! Offsets are grid positions. The scale is a fixed-point number in
//! thousandths: 1000 stands for one grid unit to the pixel. All arithmetic is
//! exact on integers, with the rounding and the limits stated here.

use crate::bounding_rect::{lemma_bounding_rect_in_range, BoundingRect};
use crate::layer::{LayerSpawned, Layers};
use vstd::prelude::*;

verus! {

/// How many pixels one key press pans.
pub const PAN_AMOUNT: i64 = 15;

/// The scale that stands for one grid unit to the pixel.
pub const SCALE_UNIT: u64 = 1000;

/// The width, in grid units, that is shown at scale one.
pub const REFERENCE_WIDTH: u64 = 1000;

/// A positive fraction: the amount by which a zoom divides the scale.
#[derive(Clone, Copy, PartialEq, Eq, Structural, Debug)]
pub struct Ratio {
    pub numerator: u64,
    pub denominator: u64,
}

/// The amount of one zoom step, 1.3.
pub open spec fn zoom_amount() -> Ratio {
    Ratio { numerator: 13, denominator: 10 }
}

/// The inverse of the amount of one zoom step.
pub open spec fn inverse_zoom_amount() -> Ratio {
    Ratio { numerator: 10, denominator: 13 }
}

/// The scale of the view, in thousandths.
#[derive(Clone, Copy, PartialEq, Eq, Structural, Debug)]
pub struct CameraScale(pub u64);

/// The grid position at the centre of the view.
#[derive(Clone, Copy, PartialEq, Eq, Structural, Debug)]
pub struct CameraOffset {
    pub x: i64,
    pub y: i64,
}

/// A drag of the view, in pixels of the screen.
#[derive(Clone, Copy, PartialEq, Eq, Structural, Debug)]
pub struct PanCameraEvent {
    pub x: i64,
    pub y: i64,
}

/// The keys that the camera listens to.
#[derive(Clone, Copy, PartialEq, Eq, Structural, Debug)]
pub enum KeyCode {
    Up,
    Right,
    Down,
    Left,
    Minus,
    Equals,
    Other,
}

/// Offset and scale together.
#[derive(Clone, Copy, PartialEq, Eq, Structural, Debug)]
pub struct CameraState {
    pub offset: CameraOffset,
    pub scale: CameraScale,
}

/// The value, held inside the range of `i64`.
pub open spec fn clamp_offset(v: int) -> i64 {
    if v < i64::MIN {
        i64::MIN
    } else if v > i64::MAX {
        i64::MAX
    } else {
        v as i64
    }
}

/// The value, held inside the range of `u64`.
pub open spec fn clamp_scale(v: int) -> u64 {
    if v < 0 {
        0
    } else if v > u64::MAX {
        u64::MAX
    } else {
        v as u64
    }
}

/// How far a pan of `amount` pixels moves the offset at a scale: the amount
/// times the scale, rounded toward zero.
pub open spec fn pan_delta(amount: int, scale: int) -> int {
    if amount >= 0 {
        (amount * scale) / (SCALE_UNIT as int)
    } else {
        -(((-amount) * scale) / (SCALE_UNIT as int))
    }
}

/// The quotient, rounded up.
pub open spec fn ceil_div(a: int, b: int) -> int {
    (a + b - 1) / b
}

/// The scale divided by the amount, rounded up and held inside `u64`.
pub open spec fn zoomed(scale: u64, amount: Ratio) -> u64 {
    clamp_scale(ceil_div(scale * amount.denominator, amount.numerator as int))
}

/// The scale at which a width fills the reference width: at least one
/// thousandth.
pub open spec fn fit_scale(width: int) -> u64 {
    let exact = ceil_div(width * SCALE_UNIT, REFERENCE_WIDTH as int);
    if exact < 1 {
        1
    } else {
        clamp_scale(exact)
    }
}

/// The state after a pan along x.
pub open spec fn panned_x(state: CameraState, amount: int) -> CameraState {
    CameraState {
        offset: CameraOffset {
            x: clamp_offset(state.offset.x + pan_delta(amount, state.scale.0 as int)),
            y: state.offset.y,
        },
        scale: state.scale,
    }
}

/// The state after a pan along y.
pub open spec fn panned_y(state: CameraState, amount: int) -> CameraState {
    CameraState {
        offset: CameraOffset {
            x: state.offset.x,
            y: clamp_offset(state.offset.y + pan_delta(amount, state.scale.0 as int)),
        },
        scale: state.scale,
    }
}

/// The state after one key press.
pub open spec fn key_step(state: CameraState, key: KeyCode, shift_pressed: bool) -> CameraState {
    match key {
        KeyCode::Up => panned_y(state, PAN_AMOUNT as int),
        KeyCode::Right => panned_x(state, PAN_AMOUNT as int),
        KeyCode::Down => panned_y(state, -(PAN_AMOUNT as int)),
        KeyCode::Left => panned_x(state, -(PAN_AMOUNT as int)),
        KeyCode::Minus => CameraState {
            offset: state.offset,
            scale: CameraScale(zoomed(state.scale.0, inverse_zoom_amount())),
        },
        KeyCode::Equals => if shift_pressed {
            CameraState {
                offset: state.offset,
                scale: CameraScale(zoomed(state.scale.0, zoom_amount())),
            }
        } else {
            state
        },
        KeyCode::Other => state,
    }
}

/// The state after the key presses, taken in order.
pub open spec fn after_keys(state: CameraState, keys: Seq<KeyCode>, shift_pressed: bool) -> CameraState
    decreases keys.len(),
{
    if keys.len() == 0 {
        state
    } else {
        key_step(after_keys(state, keys.drop_last(), shift_pressed), keys.last(), shift_pressed)
    }
}

/// The state after one drag: the view moves against the drag along x and
/// with it along y.
pub open spec fn drag_step(state: CameraState, event: PanCameraEvent) -> CameraState {
    panned_y(panned_x(state, -(event.x as int)), event.y as int)
}

/// The state after the drags, taken in order.
pub open spec fn after_drags(state: CameraState, events: Seq<PanCameraEvent>) -> CameraState
    decreases events.len(),
{
    if events.len() == 0 {
        state
    } else {
        drag_step(after_drags(state, events.drop_last()), events.last())
    }
}

/// The state that shows a rectangle: centred on it, at the scale at which
/// its width fills the reference width. Its height plays no part.
pub open spec fn fitted(rect: BoundingRect) -> CameraState {
    CameraState {
        offset: CameraOffset { x: rect.center_spec().x, y: rect.center_spec().y },
        scale: CameraScale(fit_scale(rect.width_spec())),
    }
}

/// A pan to one side and the same pan to the other move by the same
/// distance.
pub proof fn lemma_pan_delta_symmetric(amount: int, scale: int)
    ensures
        pan_delta(-amount, scale) == -pan_delta(amount, scale),
{
    assert((-(-amount)) * scale == amount * scale) by (nonlinear_arith);
}

/// At a whole scale a pan moves by the amount times the scale.
pub proof fn lemma_pan_delta_whole_scale(amount: int, units: int)
    requires
        units >= 0,
    ensures
        pan_delta(amount, units * SCALE_UNIT) == amount * units,
{
    if amount >= 0 {
        assert(amount * (units * 1000) == (amount * units) * 1000) by (nonlinear_arith);
    } else {
        assert((-amount) * (units * 1000) == ((-amount) * units) * 1000) by (nonlinear_arith);
        assert((-amount) * units == -(amount * units)) by (nonlinear_arith);
    }
}

/// A zoom never brings a positive scale to zero.
pub proof fn lemma_zoom_keeps_positive(scale: u64, amount: Ratio)
    requires
        scale > 0,
        amount.numerator > 0,
        amount.denominator > 0,
    ensures
        zoomed(scale, amount) > 0,
{
    let p = scale * amount.denominator;
    let n = amount.numerator as int;
    assert(p >= 1) by (nonlinear_arith)
        requires
            scale >= 1,
            amount.denominator >= 1,
            p == scale * amount.denominator,
    ;
    assert((p + n - 1) / n >= 1) by (nonlinear_arith)
        requires
            p >= 1,
            n >= 1,
    ;
}

/// The distance of a value from zero.
fn magnitude(v: i64) -> (r: u64)
    ensures
        r == if v >= 0 {
            v as int
        } else {
            -(v as int)
        },
{
    if v >= 0 {
        v as u64
    } else {
        (-(v + 1)) as u64 + 1
    }
}

/// One component of the offset after a pan of `size` pixels, up or down the
/// axis.
fn pan_component(at: i64, negative: bool, size: u64, scale: u64) -> (r: i64)
    ensures
        r == clamp_offset(
            at + pan_delta(
                if negative {
                    -(size as int)
                } else {
                    size as int
                },
                scale as int,
            ),
        ),
{
    assert(size * scale <= 0xffff_ffff_ffff_ffff * 0xffff_ffff_ffff_ffff) by (nonlinear_arith)
        requires
            size <= 0xffff_ffff_ffff_ffff,
            scale <= 0xffff_ffff_ffff_ffff,
    ;
    let product: u128 = (size as u128) * (scale as u128);
    let step: u128 = product / 1000;
    let step: i128 = step as i128;
    let target: i128 = if negative {
        at as i128 - step
    } else {
        at as i128 + step
    };
    if target < i64::MIN as i128 {
        i64::MIN
    } else if target > i64::MAX as i128 {
        i64::MAX
    } else {
        target as i64
    }
}

/// Pans along x by `amount` pixels at the current scale. The offset stops
/// at the ends of the `i64` range.
pub fn pan_x(amount: i64, camera_offset: &mut CameraOffset, camera_scale: &CameraScale)
    ensures
        final(camera_offset).x == clamp_offset(
            old(camera_offset).x + pan_delta(amount as int, camera_scale.0 as int),
        ),
        final(camera_offset).y == old(camera_offset).y,
{
    camera_offset.x = pan_component(camera_offset.x, amount < 0, magnitude(amount), camera_scale.0);
}

/// Pans along y by `amount` pixels at the current scale. The offset stops
/// at the ends of the `i64` range.
pub fn pan_y(amount: i64, camera_offset: &mut CameraOffset, camera_scale: &CameraScale)
    ensures
        final(camera_offset).y == clamp_offset(
            old(camera_offset).y + pan_delta(amount as int, camera_scale.0 as int),
        ),
        final(camera_offset).x == old(camera_offset).x,
{
    camera_offset.y = pan_component(camera_offset.y, amount < 0, magnitude(amount), camera_scale.0);
}

/// Divides the scale by the amount, rounding up. The scale stops at the end
/// of the `u64` range, and a positive scale stays positive.
pub fn zoom(amount: Ratio, camera_scale: &mut CameraScale)
    requires
        amount.numerator > 0,
    ensures
        final(camera_scale).0 == zoomed(old(camera_scale).0, amount),
        old(camera_scale).0 > 0 && amount.denominator > 0 ==> final(camera_scale).0 > 0,
{
    proof {
        if camera_scale.0 > 0 && amount.denominator > 0 {
            lemma_zoom_keeps_positive(camera_scale.0, amount);
        }
    }
    camera_scale.0 = scaled_up(camera_scale.0, amount.denominator, amount.numerator);
}

/// `value * times / by`, rounded up and held inside `u64`.
fn scaled_up(value: u64, times: u64, by: u64) -> (r: u64)
    requires
        by > 0,
    ensures
        r == clamp_scale(ceil_div(value * times, by as int)),
{
    assert(value * times <= 0xffff_ffff_ffff_ffff * 0xffff_ffff_ffff_ffff) by (nonlinear_arith)
        requires
            value <= 0xffff_ffff_ffff_ffff,
            times <= 0xffff_ffff_ffff_ffff,
    ;
    let product: u128 = (value as u128) * (times as u128);
    let rounded: u128 = (product + (by as u128 - 1)) / (by as u128);
    if rounded > u64::MAX as u128 {
        u64::MAX
    } else {
        rounded as u64
    }
}

/// Applies one key press.
pub fn press_key(key: KeyCode, shift_pressed: bool, camera: &mut CameraState)
    ensures
        *final(camera) == key_step(*old(camera), key, shift_pressed),
{
    let mut offset = camera.offset;
    let mut scale = camera.scale;
    match key {
        KeyCode::Up => pan_y(PAN_AMOUNT, &mut offset, &scale),
        KeyCode::Right => pan_x(PAN_AMOUNT, &mut offset, &scale),
        KeyCode::Down => pan_y(-PAN_AMOUNT, &mut offset, &scale),
        KeyCode::Left => pan_x(-PAN_AMOUNT, &mut offset, &scale),
        KeyCode::Minus => zoom(Ratio { numerator: 10, denominator: 13 }, &mut scale),
        KeyCode::Equals => {
            if shift_pressed {
                zoom(Ratio { numerator: 13, denominator: 10 }, &mut scale);
            }
        },
        KeyCode::Other => {},
    }
    camera.offset = offset;
    camera.scale = scale;
}

/// Applies the keys that were pressed in one frame, in order: the arrows
/// pan, minus zooms out, and equals with shift zooms in.
pub fn process_mouse_events(
    just_pressed: &Vec<KeyCode>,
    shift_pressed: bool,
    camera: &mut CameraState,
)
    ensures
        *final(camera) == after_keys(*old(camera), just_pressed@, shift_pressed),
{
    let mut i: usize = 0;
    while i < just_pressed.len()
        invariant
            i <= just_pressed.len(),
            *camera == after_keys(*old(camera), just_pressed@.take(i as int), shift_pressed),
        decreases just_pressed.len() - i,
    {
        proof {
            assert(just_pressed@.take(i + 1).drop_last() =~= just_pressed@.take(i as int));
        }
        press_key(just_pressed[i], shift_pressed, camera);
        i = i + 1;
    }
    proof {
        assert(just_pressed@.take(just_pressed.len() as int) =~= just_pressed@);
    }
}

/// Applies the drags of one frame, in order.
pub fn pan_camera_system(events: &Vec<PanCameraEvent>, camera: &mut CameraState)
    ensures
        *final(camera) == after_drags(*old(camera), events@),
{
    let mut i: usize = 0;
    while i < events.len()
        invariant
            i <= events.len(),
            *camera == after_drags(*old(camera), events@.take(i as int)),
        decreases events.len() - i,
    {
        proof {
            assert(events@.take(i + 1).drop_last() =~= events@.take(i as int));
        }
        let event = events[i];
        let scale = camera.scale.0;
        // against the drag along x, with it along y
        camera.offset.x = pan_component(camera.offset.x, event.x > 0, magnitude(event.x), scale);
        camera.offset.y = pan_component(camera.offset.y, event.y < 0, magnitude(event.y), scale);
        i = i + 1;
    }
    proof {
        assert(events@.take(events.len() as int) =~= events@);
    }
}

/// Moves the camera to show a rectangle.
pub fn fit_to(rect: &BoundingRect, camera: &mut CameraState)
    requires
        rect.wf(),
    ensures
        *final(camera) == fitted(*rect),
        final(camera).scale.0 > 0,
{
    let center = rect.center();
    let scale = scaled_up(rect.width(), SCALE_UNIT, REFERENCE_WIDTH);
    camera.offset = CameraOffset { x: center.x, y: center.y };
    camera.scale = CameraScale(
        if scale < 1 {
            1
        } else {
            scale
        },
    );
}

/// Answers the news that a layer was handed to the renderer: the camera
/// moves to show that layer. News of a layer that the store does not hold
/// changes nothing.
pub fn layer_spawned(layers: &Layers, event: LayerSpawned, camera: &mut CameraState) -> (moved:
    bool)
    requires
        layers.wf(),
    ensures
        moved == layers.get_spec(event.0) is Some,
        !moved ==> *final(camera) == *old(camera),
        moved ==> *final(camera) == fitted(layers.get_spec(event.0)->0.bounding_rect),
{
    match layers.get(event.0) {
        Some(layer) => {
            proof {
                assert(layer.wf());
                lemma_bounding_rect_in_range(layer.geometry);
            }
            fit_to(&layer.bounding_rect, camera);
            true
        },
        None => false,
    }
}

impl CameraState {
    /// The camera at the origin, at scale one.
    pub fn new() -> (r: CameraState)
        ensures
            r == (CameraState {
                offset: CameraOffset { x: 0, y: 0 },
                scale: CameraScale(SCALE_UNIT),
            }),
    {
        CameraState { offset: CameraOffset { x: 0, y: 0 }, scale: CameraScale(SCALE_UNIT) }
    }
}

} // verus!
