//! Playing animated images.

use crate::path::{extension, MediaPath};
use crate::thumbnails::picture::{gif_frame_view, gif_frames, gif_pictures, GifFrame};
use vstd::prelude::*;

verus! {

/// Which picture of an animation is on show.
#[derive(Debug)]
pub struct GifAnimation {
    /// How long each picture stays, in nanoseconds.
    delays: Vec<u128>,
    current: usize,
}

/// What [`GifAnimation`] holds.
pub struct AnimationView {
    pub delays: Seq<u128>,
    pub current: usize,
}

impl View for GifAnimation {
    type V = AnimationView;

    closed spec fn view(&self) -> AnimationView {
        AnimationView { delays: self.delays@, current: self.current }
    }
}

impl AnimationView {
    /// Whether the picture on show is one of the animation.
    pub open spec fn wf(self) -> bool {
        self.current < self.delays.len() <= usize::MAX
    }

    /// Whether the picture on show has stayed for its time.
    pub open spec fn is_over(self, elapsed: u128) -> bool {
        elapsed >= self.delays[self.current as int]
    }

    /// The picture that comes next; the first one after the last.
    pub open spec fn next(self) -> usize {
        if self.current + 1 < self.delays.len() {
            (self.current + 1) as usize
        } else {
            0
        }
    }

    /// The animation after a number of pictures have stayed for their time.
    pub open spec fn after(self, steps: nat) -> AnimationView
        decreases steps,
    {
        if steps == 0 {
            self
        } else {
            let before = self.after((steps - 1) as nat);
            AnimationView { current: before.next(), ..before }
        }
    }
}

/// An animation starts over once every picture has been shown.
pub proof fn animation_starts_over(view: AnimationView)
    requires
        view.wf(),
    ensures
        view.after(view.delays.len()) == view,
{
    lemma_after(view, view.delays.len());
    let n = view.delays.len() as int;
    assert((view.current + n) % n == view.current) by (nonlinear_arith)
        requires
            0 <= view.current < n,
    ;
}

proof fn lemma_after(view: AnimationView, steps: nat)
    requires
        view.wf(),
    ensures
        view.after(steps).delays == view.delays,
        view.after(steps).current == (view.current + steps) % (view.delays.len() as int),
        view.after(steps).wf(),
    decreases steps,
{
    let n = view.delays.len() as int;
    if steps > 0 {
        lemma_after(view, (steps - 1) as nat);
        let before = view.after((steps - 1) as nat);
        let sum = view.current + steps - 1;
        assert((sum + 1) % n == if sum % n + 1 < n {
            sum % n + 1
        } else {
            0
        }) by (nonlinear_arith)
            requires
                n > 0,
                sum >= 0,
        ;
    } else {
        assert(view.current as int % n == view.current) by (nonlinear_arith)
            requires
                0 <= view.current < n,
        ;
    }
}

/// What pictures hold.
pub open spec fn pictures(frames: Seq<GifFrame>) -> Seq<(u32, u32, u128, Seq<u8>)> {
    frames.map_values(|f: GifFrame| gif_frame_view(f))
}

/// How long each of several pictures stays.
pub open spec fn delays_of(pictures: Seq<(u32, u32, u128, Seq<u8>)>) -> Seq<u128> {
    pictures.map_values(|p: (u32, u32, u128, Seq<u8>)| p.2)
}

/// An animation of several pictures, the first one on show.
pub open spec fn first_shown(pictures: Seq<(u32, u32, u128, Seq<u8>)>) -> AnimationView {
    AnimationView { delays: delays_of(pictures), current: 0 }
}

/// An animation of pictures, with the first one on show. There has to be one.
pub fn animate(frames: &Vec<GifFrame>) -> (animation: Result<GifAnimation, String>)
    ensures
        match animation {
            Ok(a) => {
                &&& frames.len() > 0
                &&& a@ == first_shown(pictures(frames@))
                &&& a@.wf()
            },
            Err(message) => frames.len() == 0 && message@ == "GIF had no frames"@,
        },
{
    if frames.len() == 0 {
        return Err("GIF had no frames".to_string());
    }
    let mut delays: Vec<u128> = Vec::new();
    let mut i: usize = 0;
    while i < frames.len()
        invariant
            i <= frames.len(),
            delays.len() == i,
            forall|k: int| 0 <= k < i ==> #[trigger] delays@[k] == frames@[k].delay,
        decreases frames.len() - i,
    {
        delays.push(frames[i].delay);
        i += 1;
    }
    assert(delays@ =~= delays_of(pictures(frames@)));
    Ok(GifAnimation { delays, current: 0 })
}

/// The pictures of a GIF file, and the animation of them with the first one on show.
pub fn decode_gif(data: &[u8]) -> (decoded: Result<(Vec<GifFrame>, GifAnimation), String>)
    ensures
        match gif_pictures(data@) {
            Ok(found) => if found.len() == 0 {
                decoded matches Err(message) && message@ == "GIF had no frames"@
            } else {
                decoded matches Ok((frames, animation)) && pictures(frames@) == found
                    && animation@ == first_shown(found) && animation@.wf()
            },
            Err(cause) => decoded matches Err(message) && message@ == cause,
        },
{
    match gif_frames(data) {
        Ok(frames) => {
            assert(pictures(frames@).len() == frames.len());
            match animate(&frames) {
                Ok(animation) => Ok((frames, animation)),
                Err(message) => Err(message),
            }
        },
        Err(message) => Err(message),
    }
}

/// Goes on to the next picture if the one on show has stayed for its time, and says which one that
/// is. `elapsed` is how long it has stayed, in nanoseconds.
pub fn tick_gif_animation(animation: &mut GifAnimation, elapsed: u128) -> (shown: Option<usize>)
    requires
        old(animation)@.wf(),
    ensures
        final(animation)@.wf(),
        shown == (if old(animation)@.is_over(elapsed) {
            Some(old(animation)@.next())
        } else {
            None
        }),
        final(animation)@ == if old(animation)@.is_over(elapsed) {
            old(animation)@.after(1)
        } else {
            old(animation)@
        },
{
    proof {
        reveal_with_fuel(AnimationView::after, 2);
    }
    if elapsed < animation.delays[animation.current] {
        return None;
    }
    let next: usize = if animation.current + 1 < animation.delays.len() {
        animation.current + 1
    } else {
        0
    };
    animation.current = next;
    Some(next)
}

/// Whether a path is that of a GIF file.
pub open spec fn is_gif(path: Seq<u8>) -> bool {
    extension(path) matches Some(ext) && ascii_lowered_bytes(ext) == seq![103u8, 105, 102]
}

/// Bytes with every ASCII capital in lowercase.
pub open spec fn ascii_lowered_bytes(bytes: Seq<u8>) -> Seq<u8> {
    bytes.map_values(
        |b: u8|
            if 65 <= b <= 90 {
                (b + 32) as u8
            } else {
                b
            },
    )
}

/// Whether a path is that of a GIF file, by its extension in whatever case.
pub fn is_gif_file(path: &MediaPath) -> (gif: bool)
    ensures
        gif == is_gif(path@),
{
    match path.extension() {
        Some(ext) => {
            let ghost lowered = ascii_lowered_bytes(ext@);
            if ext.len() != 3 {
                assert(lowered.len() != 3);
                return false;
            }
            let gif = (ext[0] == 71 || ext[0] == 103) && (ext[1] == 73 || ext[1] == 105) && (ext[2]
                == 70 || ext[2] == 102);
            proof {
                let target = seq![103u8, 105, 102];
                if gif {
                    assert(lowered =~= target);
                } else {
                    assert(lowered[0] != target[0] || lowered[1] != target[1] || lowered[2]
                        != target[2]);
                }
            }
            gif
        },
        None => false,
    }
}

} // verus!
