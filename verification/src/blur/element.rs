//! Elements that blur their backdrop, and when they change.

use crate::blur::offset::BlurOffset;
use crate::blur::params::{
    capture_margin, extended_radius, lemma_margin_within_radius, lemma_params_usable,
    lemma_radius_numbers, lemma_strength_numbers, parameters, params_for, radius_for, BlurParameters, MAX_LEVELS,
};
use crate::float::{lemma_float_format, FloatBits, FloatSize};
use crate::geometry::{clamp_i32, max_i32, saturating_add, Point, Rectangle, Size};
use vstd::math::abs;
use vstd::prelude::*;

verus! {

/// Counts the changes of an element. It starts over after the largest count.
#[derive(Clone, Copy, Debug, PartialEq, Eq, Structural)]
pub struct CommitCounter {
    pub count: usize,
}

impl CommitCounter {
    pub open spec fn incremented(self) -> CommitCounter {
        CommitCounter {
            count: if self.count == usize::MAX {
                0
            } else {
                (self.count + 1) as usize
            },
        }
    }

    /// The number of changes since `previous`. It is unknown if there is none,
    /// or if it is ahead of this one, which has then started over.
    pub open spec fn since(self, previous: Option<CommitCounter>) -> Option<int> {
        match previous {
            Some(previous) => if previous.count <= self.count {
                Some(self.count - previous.count)
            } else {
                None
            },
            None => None,
        }
    }

    /// Counts a change.
    pub fn increment(&mut self)
        ensures
            *final(self) == old(self).incremented(),
    {
        self.count = if self.count == usize::MAX {
            0
        } else {
            self.count + 1
        };
    }

    /// The number of changes since `previous`, if it is known.
    pub fn distance(&self, previous: Option<CommitCounter>) -> (r: Option<usize>)
        ensures
            r matches Some(d) ==> self.since(previous) == Some(d as int),
            r is None ==> self.since(previous) is None,
    {
        match previous {
            Some(previous) => if previous.count <= self.count {
                Some(self.count - previous.count)
            } else {
                None
            },
            None => None,
        }
    }
}

/// What the last blur of a surface was made of.
#[derive(Debug)]
pub struct BlurState {
    /// Identifies the element to the renderer.
    pub id: u64,
    /// The renderer that the element was made for.
    pub renderer_id: Option<u64>,
    /// The size of the captured backdrop.
    pub src: FloatSize,
    pub offset: BlurOffset,
    pub passes: usize,
    /// The parts of the surface behind which the backdrop is blurred.
    pub region: Vec<Rectangle>,
    pub commit: CommitCounter,
}

/// A blurred backdrop.
#[derive(Debug)]
pub struct BlurElement {
    pub id: u64,
    pub commit: CommitCounter,
    /// The size of the captured backdrop.
    pub src: FloatSize,
    /// The parts of the captured backdrop that are shown.
    pub region: Vec<Rectangle>,
    pub offset: BlurOffset,
    pub passes: usize,
}

/// What an element is made from.
#[derive(Clone, Copy, Debug)]
pub struct BlurRequest {
    pub renderer_id: u64,
    /// The size of the element.
    pub size: FloatSize,
    /// The size of the backdrop that is captured for it.
    pub src: FloatSize,
    /// Where the element lies in the captured backdrop.
    pub extended_offset: Point,
    pub strength: usize,
}

impl BlurRequest {
    /// There is nothing to blur.
    pub open spec fn void(self) -> bool {
        self.strength == 0 || self.size.empty()
    }

    /// The parameters of the requested strength.
    pub open spec fn params(self) -> BlurParameters {
        params_for(self.strength as int)
    }
}

/// `rect`, moved by `offset`.
pub open spec fn moved(rect: Rectangle, offset: Point) -> Rectangle {
    Rectangle {
        loc: Point {
            x: clamp_i32(rect.loc.x + offset.x),
            y: clamp_i32(rect.loc.y + offset.y),
        },
        size: rect.size,
    }
}

impl BlurState {
    /// The last blur was made of the same: by the same renderer, with the same
    /// parameters, for the same region and of a backdrop of the same size.
    pub open spec fn up_to_date(self, request: BlurRequest, region: Seq<Rectangle>) -> bool {
        &&& self.renderer_id == Some(request.renderer_id)
        &&& self.offset.same(request.params().offset)
        &&& self.passes == request.params().passes
        &&& self.region@ == region
        &&& self.src.same(request.src)
    }

    /// `after` is this state after `request`: it holds what the request was
    /// made of, and counts a change unless it did so before.
    pub open spec fn updates_to(
        self,
        request: BlurRequest,
        region: Seq<Rectangle>,
        after: BlurState,
    ) -> bool {
        &&& after.id == self.id
        &&& after.renderer_id == Some(request.renderer_id)
        &&& after.src == request.src
        &&& after.offset == request.params().offset
        &&& after.passes == request.params().passes
        &&& after.region@ == region
        &&& after.commit == if self.up_to_date(request, region) {
            self.commit
        } else {
            self.commit.incremented()
        }
    }

    /// The state of a surface that has not been blurred yet.
    pub fn new(id: u64) -> (state: BlurState)
        ensures
            state.id == id,
            state.renderer_id is None,
            state.src.w.bits == 0,
            state.src.h.bits == 0,
            state.offset.num == 0,
            state.offset.den == 1,
            state.passes == 0,
            state.region@ == Seq::<Rectangle>::empty(),
            state.commit.count == 0,
    {
        BlurState {
            id,
            renderer_id: None,
            src: FloatSize { w: FloatBits { bits: 0 }, h: FloatBits { bits: 0 } },
            offset: BlurOffset { num: 0, den: 1 },
            passes: 0,
            region: Vec::new(),
            commit: CommitCounter { count: 0 },
        }
    }
}

/// How far beyond an element of `size` its backdrop is captured.
pub open spec fn radius_of(size: FloatSize, strength: int) -> Option<int> {
    if strength == 0 || size.empty() {
        None
    } else {
        Some(radius_for(strength))
    }
}

/// How far beyond an element of `size` its backdrop is captured, if there is
/// anything to blur.
pub fn blur_radius(size: FloatSize, strength: usize) -> (r: Option<i32>)
    requires
        strength + 2 <= usize::MAX,
    ensures
        r == (if strength == 0 || size.empty() {
            None
        } else {
            Some(radius_for(strength as int) as i32)
        }),
        match r {
            Some(radius) => radius_of(size, strength as int) == Some(radius as int),
            None => radius_of(size, strength as int) is None,
        },
{
    if strength == 0 || size.is_empty() {
        None
    } else {
        Some(extended_radius(strength))
    }
}

/// Whether both lists hold the same rectangles in the same order.
fn same_region(a: &Vec<Rectangle>, b: &Vec<Rectangle>) -> (r: bool)
    ensures
        r == (a@ == b@),
{
    if a.len() != b.len() {
        return false;
    }
    let mut i: usize = 0;
    while i < a.len()
        invariant
            i <= a.len(),
            a.len() == b.len(),
            forall|k: int| 0 <= k < i ==> a@[k] == b@[k],
        decreases a.len() - i,
    {
        if a[i] != b[i] {
            return false;
        }
        i = i + 1;
    }
    assert(a@ =~= b@);
    true
}

/// The rectangles of `region`, moved by `offset`.
fn move_region(region: &Vec<Rectangle>, offset: Point) -> (r: Vec<Rectangle>)
    ensures
        r@ == region@.map_values(|rect: Rectangle| moved(rect, offset)),
{
    let mut r: Vec<Rectangle> = Vec::with_capacity(region.len());
    let mut i: usize = 0;
    while i < region.len()
        invariant
            i <= region.len(),
            r@ == region@.take(i as int).map_values(|rect: Rectangle| moved(rect, offset)),
        decreases region.len() - i,
    {
        let rect: Rectangle = region[i];
        r.push(
            Rectangle {
                loc: Point {
                    x: saturating_add(rect.loc.x, offset.x),
                    y: saturating_add(rect.loc.y, offset.y),
                },
                size: rect.size,
            },
        );
        assert(r@ =~= region@.take(i + 1).map_values(|rect: Rectangle| moved(rect, offset)));
        i = i + 1;
    }
    assert(region@.take(i as int) =~= region@);
    r
}

/// A copy of `region`.
fn copy_region(region: &Vec<Rectangle>) -> (r: Vec<Rectangle>)
    ensures
        r@ == region@,
{
    let mut r: Vec<Rectangle> = Vec::with_capacity(region.len());
    let mut i: usize = 0;
    while i < region.len()
        invariant
            i <= region.len(),
            r@ == region@.take(i as int),
        decreases region.len() - i,
    {
        r.push(region[i]);
        assert(r@ =~= region@.take(i + 1));
        i = i + 1;
    }
    assert(region@.take(i as int) =~= region@);
    r
}

impl BlurElement {
    /// The parameters are those of a strength.
    pub open spec fn wf(self) -> bool {
        &&& 1 <= self.passes <= MAX_LEVELS
        &&& self.offset.wf()
        &&& self.offset.pads_fit()
        &&& 0 <= capture_margin(self.passes as int, self.offset) <= 150
    }

    /// The element was made by `request` for `region`, with `state` as it is
    /// after the request.
    pub open spec fn made_by(
        self,
        request: BlurRequest,
        region: Seq<Rectangle>,
        state: BlurState,
    ) -> bool {
        &&& self.wf()
        &&& self.id == state.id
        &&& self.commit == state.commit
        &&& self.src == request.src
        &&& self.offset == request.params().offset
        &&& self.passes == request.params().passes
        &&& self.region@ == region.map_values(
            |rect: Rectangle| moved(rect, request.extended_offset),
        )
    }

    /// `r` is the element that `request` asks for, if there is anything to
    /// blur, and `after` is what becomes of `state`.
    pub open spec fn answers(
        request: BlurRequest,
        region: Seq<Rectangle>,
        state: BlurState,
        after: BlurState,
        r: Option<BlurElement>,
    ) -> bool {
        match r {
            None => request.void() && after == state,
            Some(element) => {
                &&& !request.void()
                &&& state.updates_to(request, region, after)
                &&& element.made_by(request, region, after)
            },
        }
    }

    /// The element that blurs all of a surface of the rounded size `size`.
    pub fn from_state(state: &mut BlurState, size: Size, request: BlurRequest) -> (r: Option<
        BlurElement,
    >)
        ensures
            BlurElement::answers(
                request,
                seq![Rectangle::of_size(size)],
                *old(state),
                *final(state),
                r,
            ),
    {
        let mut region: Vec<Rectangle> = Vec::new();
        region.push(Rectangle::from_size(size));
        assert(region@ =~= seq![Rectangle::of_size(size)]);
        BlurElement::internal(state, &region, request)
    }

    /// The element that blurs the region of a surface, if it has one.
    pub fn from_surface(
        state: &mut BlurState,
        region: Option<&Vec<Rectangle>>,
        request: BlurRequest,
    ) -> (r: Option<BlurElement>)
        ensures
            match region {
                None => r is None && *final(state) == *old(state),
                Some(region) => BlurElement::answers(
                    request,
                    region@,
                    *old(state),
                    *final(state),
                    r,
                ),
            },
    {
        match region {
            None => None,
            Some(region) => BlurElement::internal(state, region, request),
        }
    }

    /// The element that blurs `region` of a surface.
    pub fn internal(state: &mut BlurState, region: &Vec<Rectangle>, request: BlurRequest) -> (r:
        Option<BlurElement>)
        ensures
            BlurElement::answers(request, region@, *old(state), *final(state), r),
    {
        if request.strength == 0 || request.size.is_empty() {
            return None;
        }
        let params: BlurParameters = parameters(request.strength);
        proof {
            lemma_params_usable(request.strength as int);
            lemma_margin_within_radius(request.strength as int);
        }
        let same_renderer: bool = match state.renderer_id {
            Some(id) => id == request.renderer_id,
            None => false,
        };
        let dirty: bool = !(same_renderer && state.offset.equals(&params.offset) && state.passes
            == params.passes && same_region(&state.region, region) && state.src.equals(
            &request.src,
        ));
        state.renderer_id = Some(request.renderer_id);
        state.offset = params.offset;
        state.passes = params.passes;
        state.region = copy_region(region);
        state.src = request.src;
        if dirty {
            state.commit.increment();
        }
        Some(
            BlurElement {
                id: state.id,
                commit: state.commit,
                src: request.src,
                region: move_region(region, request.extended_offset),
                offset: state.offset,
                passes: state.passes,
            },
        )
    }

    /// The part of an element that shows the backdrop.
    pub open spec fn backdrop(offset: Point, size: Size, surroundings: Size) -> Rectangle {
        Rectangle {
            loc: offset,
            size: Size {
                w: max_i32(clamp_i32(size.w - surroundings.w), 0),
                h: max_i32(clamp_i32(size.h - surroundings.h), 0),
            },
        }
    }

    /// The part of the element that shows the backdrop: all but the captured
    /// surroundings. `offset` is where that part starts, `size` is the size of
    /// the element, and `surroundings` are those of both sides together.
    pub fn backdrop_region(offset: Point, size: Size, surroundings: Size) -> (r: Rectangle)
        ensures
            r == BlurElement::backdrop(offset, size, surroundings),
            r.loc == offset,
            r.size.w == max_i32(clamp_i32(size.w - surroundings.w), 0),
            r.size.h == max_i32(clamp_i32(size.h - surroundings.h), 0),
            size.wf() && surroundings.wf() ==> {
                &&& size.w >= surroundings.w ==> r.size.w + surroundings.w == size.w
                &&& size.w < surroundings.w ==> r.size.w == 0
                &&& size.h >= surroundings.h ==> r.size.h + surroundings.h == size.h
                &&& size.h < surroundings.h ==> r.size.h == 0
            },
    {
        Rectangle { loc: offset, size: size.minus(surroundings) }
    }

    /// What has changed since `commit`: `backdrop`, or nothing.
    pub open spec fn changed_since(
        self,
        backdrop: Rectangle,
        commit: Option<CommitCounter>,
    ) -> Seq<Rectangle> {
        if self.commit.since(commit) == Some(0int) {
            Seq::empty()
        } else {
            seq![backdrop]
        }
    }

    /// What has to be drawn again since `commit`: the part that shows the
    /// backdrop if the element has changed, or if that is not known.
    pub fn damage_since(&self, backdrop: Rectangle, commit: Option<CommitCounter>) -> (r: Vec<
        Rectangle,
    >)
        ensures
            r@ == self.changed_since(backdrop, commit),
    {
        let mut damage: Vec<Rectangle> = Vec::new();
        let changed: bool = match self.commit.distance(commit) {
            Some(d) => d > 0,
            None => true,
        };
        if changed {
            damage.push(backdrop);
        }
        assert(damage@ =~= self.changed_since(backdrop, commit));
        damage
    }
}

/// Asking for the same blur again counts no change, so that nothing has to be
/// drawn again.
pub proof fn lemma_repeated_request_unchanged(
    request: BlurRequest,
    region: Seq<Rectangle>,
    state: BlurState,
    first: BlurState,
    second: BlurState,
    element: BlurElement,
    backdrop: Rectangle,
)
    requires
        request.src.numeric(),
        state.updates_to(request, region, first),
        first.updates_to(request, region, second),
        element.made_by(request, region, second),
    ensures
        second.commit == first.commit,
        element.changed_since(backdrop, Some(first.commit)) == Seq::<Rectangle>::empty(),
{
}

/// Asking for a blur that differs from the last one in any way counts a
/// change, so that the backdrop is drawn again.
pub proof fn lemma_changed_request_damages(
    request: BlurRequest,
    region: Seq<Rectangle>,
    state: BlurState,
    after: BlurState,
    element: BlurElement,
    backdrop: Rectangle,
)
    requires
        state.updates_to(request, region, after),
        !state.up_to_date(request, region),
        element.made_by(request, region, after),
    ensures
        element.changed_since(backdrop, Some(state.commit)) == seq![backdrop],
{
}

/// A first look at an element draws its backdrop.
pub proof fn lemma_unknown_commit_damages(element: BlurElement, backdrop: Rectangle)
    ensures
        element.changed_since(backdrop, None) == seq![backdrop],
{
}

/// A state that has never been used is not up to date with any request.
pub proof fn lemma_first_request_counts(
    request: BlurRequest,
    region: Seq<Rectangle>,
    state: BlurState,
    after: BlurState,
)
    requires
        state.renderer_id is None,
        state.updates_to(request, region, after),
    ensures
        after.commit == state.commit.incremented(),
{
}

/// Counting a change makes the count differ, and by one, unless it starts over.
/// The number of changes since an earlier count is what has been counted
/// since; that since a later one is not known.
pub proof fn lemma_commits_count(commit: CommitCounter, earlier: CommitCounter)
    ensures
        commit.incremented() != commit,
        commit.count < usize::MAX ==> commit.incremented().since(Some(commit)) == Some(1int),
        commit.count == usize::MAX ==> commit.incremented().count == 0,
        commit.since(Some(commit)) == Some(0int),
        commit.since(Some(earlier)) is None <==> earlier.count > commit.count,
        commit.since(Some(earlier)) matches Some(n) ==> earlier.count + n == commit.count,
        commit.since(None) is None,
{
}

/// Nothing has to be drawn again exactly if the given commit is the one that
/// the element has. Since any other, however many changes lie between, and if
/// there is none, it is just the part that shows the backdrop.
pub proof fn lemma_damaged_unless_same_commit(
    element: BlurElement,
    backdrop: Rectangle,
    commit: Option<CommitCounter>,
)
    ensures
        ({
            let damage = element.changed_since(backdrop, commit);
            &&& damage.len() == 0 <==> (commit matches Some(c) && c.count == element.commit.count)
            &&& damage.len() > 0 ==> damage.len() == 1 && damage[0] == backdrop
        }),
{
}

/// A moved rectangle keeps its size, and is further by the offset, as far as
/// the coordinates stay within the range of `i32`.
pub proof fn lemma_moved_by_offset(rect: Rectangle, offset: Point)
    ensures
        moved(rect, offset).size == rect.size,
        i32::MIN <= rect.loc.x + offset.x <= i32::MAX ==> moved(rect, offset).loc.x == rect.loc.x
            + offset.x,
        i32::MIN <= rect.loc.y + offset.y <= i32::MAX ==> moved(rect, offset).loc.y == rect.loc.y
            + offset.y,
        abs(moved(rect, offset).loc.x - (rect.loc.x + offset.x)) <= abs(
            i32::MAX - (rect.loc.x + offset.x),
        ),
        abs(moved(rect, offset).loc.x - (rect.loc.x + offset.x)) <= abs(
            i32::MIN - (rect.loc.x + offset.x),
        ),
        abs(moved(rect, offset).loc.y - (rect.loc.y + offset.y)) <= abs(
            i32::MAX - (rect.loc.y + offset.y),
        ),
        abs(moved(rect, offset).loc.y - (rect.loc.y + offset.y)) <= abs(
            i32::MIN - (rect.loc.y + offset.y),
        ),
{
}

/// An element is made exactly if the strength and both dimensions are other than
/// zero. Otherwise the state stays as it is.
pub proof fn lemma_element_made_if_visible(
    request: BlurRequest,
    region: Seq<Rectangle>,
    state: BlurState,
    after: BlurState,
    r: Option<BlurElement>,
)
    requires
        BlurElement::answers(request, region, state, after, r),
    ensures
        r is Some <==> {
            &&& request.strength > 0
            &&& request.size.w.bits != 0 && request.size.w.bits != 0x8000_0000_0000_0000
            &&& request.size.h.bits != 0 && request.size.h.bits != 0x8000_0000_0000_0000
        },
        r is None ==> after == state,
{
    lemma_float_format(request.size.w);
    lemma_float_format(request.size.h);
}

/// What an element and the state hold after a request: they agree on the
/// element, the commit and the parameters, the state keeps its name and what the
/// request was made of, and the element shows every rectangle of the region, in
/// its order, where it lies in the captured backdrop.
pub proof fn lemma_element_as_requested(
    request: BlurRequest,
    region: Seq<Rectangle>,
    state: BlurState,
    after: BlurState,
    element: BlurElement,
)
    requires
        BlurElement::answers(request, region, state, after, Some(element)),
    ensures
        after.id == state.id,
        element.id == state.id,
        element.commit == after.commit,
        after.renderer_id == Some(request.renderer_id),
        after.src == request.src,
        element.src == request.src,
        after.region@ == region,
        element.region@.len() == region.len(),
        forall|i: int|
            0 <= i < region.len() ==> {
                let rect = #[trigger] element.region@[i];
                let x = region[i].loc.x + request.extended_offset.x;
                let y = region[i].loc.y + request.extended_offset.y;
                &&& rect.size == region[i].size
                &&& i32::MIN <= x <= i32::MAX ==> rect.loc.x == x
                &&& i32::MIN <= y <= i32::MAX ==> rect.loc.y == y
            },
        after.passes == element.passes,
        after.offset == element.offset,
        element.passes == params_for(request.strength as int).passes,
        element.offset == params_for(request.strength as int).offset,
{
}

/// How strongly an element is blurred, in numbers: one pass for the weakest
/// strength, two up to the third, three up to the eighth, and four beyond.
pub proof fn lemma_element_blurred_by_strength(
    request: BlurRequest,
    region: Seq<Rectangle>,
    state: BlurState,
    after: BlurState,
    element: BlurElement,
)
    requires
        BlurElement::answers(request, region, state, after, Some(element)),
    ensures
        ({
            let strength = request.strength;
            let num = element.offset.num;
            let den = element.offset.den;
            &&& strength >= 1
            &&& strength == 1 ==> element.passes == 1 && num == 2 * den
            &&& 2 <= strength <= 3 ==> element.passes == 2 && 2 * num == (3 + strength) * den
            &&& 4 <= strength <= 8 ==> element.passes == 3 && 5 * num == (1 + 3 * strength) * den
            &&& 9 <= strength ==> element.passes == 4
            &&& 9 <= strength <= 14 ==> 6 * num == (5 * strength - 22) * den
            &&& 14 < strength ==> num == 8 * den
        }),
{
    lemma_strength_numbers(request.strength as int);
    if request.strength == 1 {
        assert((3 + 1) * element.offset.den == 4 * element.offset.den);
    }
}

/// A request counts one change, unless the last blur was made by the same
/// renderer, with as many passes, with the same offset, for the very same
/// region, and of a backdrop that is equal in width and height. Then it counts
/// none.
pub proof fn lemma_changes_counted(
    request: BlurRequest,
    region: Seq<Rectangle>,
    state: BlurState,
    after: BlurState,
    element: BlurElement,
)
    requires
        BlurElement::answers(request, region, state, after, Some(element)),
    ensures
        ({
            let unchanged = {
                &&& state.renderer_id == Some(request.renderer_id)
                &&& state.passes == element.passes
                &&& state.offset.den > 0
                &&& state.offset.num * element.offset.den == element.offset.num * state.offset.den
                &&& state.region@.len() == region.len()
                &&& forall|i: int|
                    0 <= i < region.len() ==> #[trigger] state.region@[i] == region[i]
                &&& state.src.w.same(request.src.w)
                &&& state.src.h.same(request.src.h)
            };
            &&& unchanged ==> after.commit.count == state.commit.count
            &&& !unchanged && state.commit.count < usize::MAX ==> after.commit.count
                == state.commit.count + 1
            &&& !unchanged && state.commit.count == usize::MAX ==> after.commit.count == 0
        }),
{
    if state.region@.len() == region.len() && (forall|i: int|
        0 <= i < region.len() ==> #[trigger] state.region@[i] == region[i]) {
        assert(state.region@ =~= region);
    }
}

/// How far the surroundings of an element are captured, in numbers. There is
/// such a radius exactly if the strength and both dimensions are other than
/// zero, and it does not depend on the size.
pub proof fn lemma_radius_by_strength(size: FloatSize, strength: int)
    requires
        strength >= 0,
    ensures
        radius_of(size, strength) is Some <==> {
            &&& strength > 0
            &&& size.w.bits != 0 && size.w.bits != 0x8000_0000_0000_0000
            &&& size.h.bits != 0 && size.h.bits != 0x8000_0000_0000_0000
        },
        radius_of(size, strength) matches Some(radius) ==> {
            &&& strength == 1 ==> radius == 20
            &&& 2 <= strength <= 6 ==> radius == 50
            &&& 7 <= strength ==> radius == 150
        },
{
    lemma_float_format(size.w);
    lemma_float_format(size.h);
    lemma_radius_numbers(strength);
}

/// The part that shows the backdrop starts at the offset, and together with the
/// surroundings it makes up the element. If the surroundings are larger than the
/// element, nothing is left.
pub proof fn lemma_backdrop_and_surroundings(offset: Point, size: Size, surroundings: Size)
    requires
        size.wf(),
        surroundings.wf(),
    ensures
        ({
            let backdrop = BlurElement::backdrop(offset, size, surroundings);
            &&& backdrop.loc.x == offset.x && backdrop.loc.y == offset.y
            &&& size.w >= surroundings.w ==> backdrop.size.w + surroundings.w == size.w
            &&& size.w < surroundings.w ==> backdrop.size.w == 0
            &&& size.h >= surroundings.h ==> backdrop.size.h + surroundings.h == size.h
            &&& size.h < surroundings.h ==> backdrop.size.h == 0
        }),
{
}

} // verus!
