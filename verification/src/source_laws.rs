//! What holds of layers that are asked for images and drawn over each other.

use crate::layer_math::LayerMath;
use crate::overlay::{OverlayFrame, OverlayFrameSource, OverlayPlacement};
use crate::overlay_layers::{
    changes, gave, is_fully_transparent, latest_updated, LayeredOverlaySource,
};
use vstd::prelude::*;

verus! {

/// Some pixel of an image is not fully transparent.
pub open spec fn shows_something(rgba: Seq<u8>) -> bool {
    exists|k: int| 0 <= k && 4 * k + 3 < rgba.len() && #[trigger] rgba[4 * k + 3] != 0
}

/// An image is transparent where every pixel is.
pub proof fn an_image_is_transparent_where_every_pixel_is(frame: OverlayFrame, r: bool)
    requires
        call_ensures(is_fully_transparent, (&frame,), r),
    ensures
        r <==> !shows_something(frame.rgba@),
{
    if shows_something(frame.rgba@) {
        let k = choose|k: int|
            0 <= k && 4 * k + 3 < frame.rgba@.len() && #[trigger] frame.rgba@[4 * k + 3] != 0;
        assert(k < frame.rgba@.len() / 4);
    } else if !r {
        let k = choose|k: int|
            0 <= k < frame.rgba@.len() / 4 && #[trigger] frame.rgba@[4 * k + 3] != 0;
        assert(4 * k + 3 < frame.rgba@.len());
        assert(shows_something(frame.rgba@));
    }
}

/// Of a layer just the images that show something are drawn.
pub proof fn transparent_images_are_not_drawn<S: OverlayFrameSource, M: LayerMath>(
    s: LayeredOverlaySource<S, M>,
    i: int,
)
    requires
        0 <= i < s.latest().len(),
    ensures
        s.cached().len() == s.latest().len(),
        match s.latest()[i] {
            None => s.cached()[i] is None,
            Some(f) => if shows_something(f.rgba@) {
                s.cached()[i] == Some(f)
            } else {
                s.cached()[i] is None
            },
        },
{
    if let Some(f) = s.latest()[i] {
        if shows_something(f.rgba@) {
            let k = choose|k: int|
                0 <= k && 4 * k + 3 < f.rgba@.len() && #[trigger] f.rgba@[4 * k + 3] != 0;
            assert(k < f.rgba@.len() / 4);
        } else {
            assert forall|k: int| 0 <= k < f.rgba@.len() / 4 implies #[trigger] f.rgba@[4 * k + 3]
                == 0 by {
                assert(4 * k + 3 < f.rgba@.len());
            }
        }
    }
}

/// Two images are the same where their size, their design and every byte are.
pub open spec fn is_same_image(a: OverlayFrame, b: OverlayFrame) -> bool {
    &&& a.width == b.width
    &&& a.height == b.height
    &&& a.design_size == b.design_size
    &&& a.rgba@.len() == b.rgba@.len()
    &&& forall|k: int| 0 <= k < a.rgba@.len() ==> #[trigger] a.rgba@[k] == b.rgba@[k]
}

/// A source handed out something that its layer does not show yet.
pub open spec fn is_news(latest: Option<OverlayFrame>, polled: Option<OverlayFrame>) -> bool {
    polled matches Some(f) && (latest matches Some(l) ==> !is_same_image(l, f))
}

proof fn news_are_changes(latest: Option<OverlayFrame>, polled: Option<OverlayFrame>)
    ensures
        is_news(latest, polled) == changes(latest, polled),
{
    if let (Some(l), Some(f)) = (latest, polled) {
        if is_same_image(l, f) {
            assert(l.rgba@ =~= f.rgba@);
        }
    }
}

/// A layer shows the last image that was new to it, and no other layer is touched.
pub proof fn a_layer_takes_what_is_new<S: OverlayFrameSource, M: LayerMath>()
    ensures
        forall|
            s: &mut LayeredOverlaySource<S, M>,
            i: usize,
            polled: Option<OverlayFrame>,
            changed: bool,
        |
            i < s.latest().len() && #[trigger] call_ensures(
                LayeredOverlaySource::<S, M>::absorb,
                (s, i, polled),
                changed,
            ) ==> {
                &&& changed == is_news(s.latest()[i as int], polled)
                &&& final(s).latest().len() == s.latest().len()
                &&& final(s).latest()[i as int] == if changed {
                    polled
                } else {
                    s.latest()[i as int]
                }
                &&& forall|j: int|
                    0 <= j < s.latest().len() && j != i ==> #[trigger] final(s).latest()[j]
                        == s.latest()[j]
                &&& final(s).placements() == s.placements()
                &&& final(s).sources() == s.sources()
                &&& final(s).size() == s.size()
            },
{
    assert forall|
        s: &mut LayeredOverlaySource<S, M>,
        i: usize,
        polled: Option<OverlayFrame>,
        changed: bool,
    |
        i < s.latest().len() && #[trigger] call_ensures(
            LayeredOverlaySource::<S, M>::absorb,
            (s, i, polled),
            changed,
        ) implies changed == is_news(s.latest()[i as int], polled) by {
        news_are_changes(s.latest()[i as int], polled);
    }
}

/// A source was asked once, and answered with an image or with nothing.
pub open spec fn answered<S: OverlayFrameSource>(
    before: S,
    polled: Option<OverlayFrame>,
) -> bool {
    exists|c: &mut S|
        {
            &&& #[trigger] call_ensures(
                S::try_frame,
                (c,),
                Ok::<Option<OverlayFrame>, String>(polled),
            )
            &&& *c == before
        }
}

/// What one round over all layers comes to where none fails: every source was asked once,
/// every layer shows its news, and something is drawn just when there is some.
pub open spec fn is_round<S: OverlayFrameSource, M: LayerMath>(
    s: LayeredOverlaySource<S, M>,
    polled: Seq<Option<OverlayFrame>>,
    after: LayeredOverlaySource<S, M>,
    out: Option<OverlayFrame>,
) -> bool {
    &&& polled.len() == s.latest().len()
    &&& after.latest().len() == s.latest().len()
    &&& forall|i: int|
        0 <= i < polled.len() ==> answered(s.sources()[i], #[trigger] polled[i])
    &&& forall|i: int|
        0 <= i < polled.len() ==> #[trigger] after.latest()[i] == if is_news(
            s.latest()[i],
            polled[i],
        ) {
            polled[i]
        } else {
            s.latest()[i]
        }
    &&& out is Some <==> exists|i: int|
        0 <= i < polled.len() && #[trigger] is_news(s.latest()[i], polled[i])
}

/// A round over the layers asks every source once and draws all of them anew where one had
/// something new, in the sizes and places that they were set up with.
pub proof fn a_round_asks_every_layer<S: OverlayFrameSource, M: LayerMath>()
    ensures
        forall|
            s: &mut LayeredOverlaySource<S, M>,
            r: Result<Option<OverlayFrame>, String>,
        | #[trigger]
            call_ensures(LayeredOverlaySource::<S, M>::try_frame, (s,), r) && r is Ok ==> {
                &&& exists|polled: Seq<Option<OverlayFrame>>| #[trigger]
                    is_round(*s, polled, *final(s), r->Ok_0)
                &&& final(s).placements() == s.placements()
                &&& final(s).size() == s.size()
                &&& r->Ok_0 matches Some(canvas) ==> {
                    &&& canvas.width == s.size().0
                    &&& canvas.height == s.size().1
                    &&& canvas.design_size == s.size()
                    &&& crate::overlay_layers::stacked(
                        s.numbers(),
                        final(s).cached(),
                        s.placements(),
                        s.size(),
                        canvas.rgba@,
                    )
                }
            },
{
    assert forall|s: &mut LayeredOverlaySource<S, M>, r: Result<Option<OverlayFrame>, String>|
        #[trigger] call_ensures(LayeredOverlaySource::<S, M>::try_frame, (s,), r)
            && r is Ok implies exists|polled: Seq<Option<OverlayFrame>>| #[trigger]
        is_round(*s, polled, *final(s), r->Ok_0) by {
        let polled = choose|polled: Seq<Option<OverlayFrame>>|
            {
                &&& #[trigger] latest_updated(s.latest(), polled, final(s).latest())
                &&& forall|i: int, p: Option<OverlayFrame>| #[trigger]
                    gave(polled, i, p) ==> exists|c: &mut S|
                        {
                            &&& #[trigger] call_ensures(
                                S::try_frame,
                                (c,),
                                Ok::<Option<OverlayFrame>, String>(p),
                            )
                            &&& *c == s.sources()[i]
                            &&& *final(c) == final(s).sources()[i]
                        }
                &&& polled.len() == s.latest().len()
                &&& (r->Ok_0 is None <==> forall|i: int|
                    0 <= i < polled.len() ==> !#[trigger] changes(s.latest()[i], polled[i]))
            };
        assert forall|i: int| 0 <= i < polled.len() implies answered(
            s.sources()[i],
            #[trigger] polled[i],
        ) by {
            assert(gave(polled, i, polled[i]));
        }
        assert forall|i: int| 0 <= i < polled.len() implies #[trigger] is_news(
            s.latest()[i],
            polled[i],
        ) == changes(s.latest()[i], polled[i]) by {
            news_are_changes(s.latest()[i], polled[i]);
        }
        assert forall|i: int| 0 <= i < polled.len() implies #[trigger] changes(
            s.latest()[i],
            polled[i],
        ) == is_news(s.latest()[i], polled[i]) by {
            news_are_changes(s.latest()[i], polled[i]);
        }
        assert(is_round(*s, polled, *final(s), r->Ok_0));
    }
}

/// New layers keep their sources and places in order, have shown nothing, and are drawn on an
/// output of one pixel at least.
pub proof fn new_layers_have_shown_nothing<S: OverlayFrameSource, M: LayerMath>(
    math: M,
    layers: Vec<(S, OverlayPlacement)>,
    output_size: (u32, u32),
    s: LayeredOverlaySource<S, M>,
)
    requires
        call_ensures(LayeredOverlaySource::<S, M>::new, (layers, output_size, math), s),
    ensures
        s.latest().len() == layers@.len(),
        forall|i: int|
            0 <= i < layers@.len() ==> {
                &&& #[trigger] s.latest()[i] is None
                &&& s.sources()[i] == layers@[i].0
                &&& s.placements()[i] == layers@[i].1
            },
        s.size().0 >= 1 && s.size().1 >= 1,
        output_size.0 > 0 ==> s.size().0 == output_size.0,
        output_size.0 == 0 ==> s.size().0 == 1,
        output_size.1 > 0 ==> s.size().1 == output_size.1,
        output_size.1 == 0 ==> s.size().1 == 1,
{
}

} // verus!
