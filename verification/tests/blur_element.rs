use cosmic_comp::blur::draw::{draw, draw_damage, DrawError, TextureSlot};
use cosmic_comp::blur::element::{
    blur_radius, BlurElement, BlurRequest, BlurState, CommitCounter,
};
use cosmic_comp::float::{FloatBits, FloatSize};
use cosmic_comp::geometry::{Point, Rectangle, Size};

fn rect(x: i32, y: i32, w: i32, h: i32) -> Rectangle {
    Rectangle {
        loc: Point { x, y },
        size: Size { w, h },
    }
}

fn size(w: f64, h: f64) -> FloatSize {
    FloatSize {
        w: FloatBits { bits: w.to_bits() },
        h: FloatBits { bits: h.to_bits() },
    }
}

fn request() -> BlurRequest {
    BlurRequest {
        renderer_id: 7,
        size: size(100.0, 50.0),
        src: size(140.0, 90.0),
        extended_offset: Point { x: 20, y: 20 },
        strength: 4,
    }
}

#[test]
fn nothing_to_blur() {
    let mut state = BlurState::new(3);
    let region = vec![rect(0, 0, 100, 50)];
    for (w, h, strength) in [(0.0, 50.0, 4), (100.0, -0.0, 4), (100.0, 50.0, 0)] {
        let request = BlurRequest {
            size: size(w, h),
            strength,
            ..request()
        };
        assert!(BlurElement::internal(&mut state, &region, request).is_none());
        assert!(blur_radius(request.size, strength).is_none());
    }
    assert_eq!(state.commit, CommitCounter { count: 0 });
    assert_eq!(state.renderer_id, None);
}

#[test]
fn radius_of_an_element() {
    assert_eq!(blur_radius(size(1.0, 1.0), 1), Some(20));
    assert_eq!(blur_radius(size(1.0, 1.0), 2), Some(50));
    assert_eq!(blur_radius(size(1.0, 1.0), 20), Some(150));
}

#[test]
fn element_holds_the_parameters_and_the_moved_region() {
    let mut state = BlurState::new(3);
    let region = vec![rect(0, 0, 10, 10), rect(-5, i32::MAX - 3, 1, 2)];
    let element = BlurElement::internal(&mut state, &region, request()).unwrap();
    assert_eq!(element.id, 3);
    assert_eq!(element.commit, CommitCounter { count: 1 });
    assert_eq!(element.passes, 3);
    assert_eq!((element.offset.num, element.offset.den), (13, 5));
    assert!(element.src.equals(&size(140.0, 90.0)));
    assert_eq!(
        element.region,
        vec![rect(20, 20, 10, 10), rect(15, i32::MAX, 1, 2)]
    );
    assert_eq!(state.renderer_id, Some(7));
    assert_eq!(state.region, region);
    assert_eq!(state.passes, 3);
    assert!(state.src.equals(&size(140.0, 90.0)));
}

#[test]
fn repeated_request_counts_no_change() {
    let mut state = BlurState::new(3);
    let region = vec![rect(0, 0, 10, 10)];
    let first = BlurElement::internal(&mut state, &region, request()).unwrap();
    let second = BlurElement::internal(&mut state, &region, request()).unwrap();
    assert_eq!(first.commit, second.commit);
    let backdrop = rect(20, 20, 100, 50);
    assert!(second.damage_since(backdrop, Some(first.commit)).is_empty());
}

#[test]
fn changed_request_counts_a_change() {
    let region = vec![rect(0, 0, 10, 10)];
    let changes = [
        (BlurRequest { renderer_id: 8, ..request() }, region.clone()),
        (BlurRequest { src: size(141.0, 90.0), ..request() }, region.clone()),
        (BlurRequest { strength: 5, ..request() }, region.clone()),
        (BlurRequest { strength: 14, ..request() }, region.clone()),
        (request(), vec![rect(0, 0, 10, 11)]),
        (request(), vec![rect(0, 0, 10, 10), rect(1, 1, 1, 1)]),
        (request(), vec![]),
    ];
    let backdrop = rect(20, 20, 100, 50);
    for (changed, changed_region) in changes {
        let mut state = BlurState::new(3);
        let first = BlurElement::internal(&mut state, &region, request()).unwrap();
        let second = BlurElement::internal(&mut state, &changed_region, changed).unwrap();
        assert_eq!(second.commit, CommitCounter { count: 2 });
        assert_eq!(
            second.damage_since(backdrop, Some(first.commit)),
            vec![backdrop]
        );
    }
}

#[test]
fn size_that_is_no_number_always_changes() {
    let mut state = BlurState::new(3);
    let region = vec![rect(0, 0, 10, 10)];
    let request = BlurRequest {
        src: size(f64::NAN, 1.0),
        ..request()
    };
    BlurElement::internal(&mut state, &region, request).unwrap();
    BlurElement::internal(&mut state, &region, request).unwrap();
    assert_eq!(state.commit, CommitCounter { count: 2 });
}

#[test]
fn moving_an_element_counts_no_change() {
    let mut state = BlurState::new(3);
    let region = vec![rect(0, 0, 10, 10)];
    BlurElement::internal(&mut state, &region, request()).unwrap();
    let moved = BlurRequest {
        extended_offset: Point { x: 1, y: 2 },
        ..request()
    };
    let element = BlurElement::internal(&mut state, &region, moved).unwrap();
    assert_eq!(element.commit, CommitCounter { count: 1 });
    assert_eq!(element.region, vec![rect(1, 2, 10, 10)]);
}

#[test]
fn element_of_a_whole_surface() {
    let mut state = BlurState::new(1);
    let element =
        BlurElement::from_state(&mut state, Size { w: 100, h: 50 }, request()).unwrap();
    assert_eq!(state.region, vec![rect(0, 0, 100, 50)]);
    assert_eq!(element.region, vec![rect(20, 20, 100, 50)]);
}

#[test]
fn element_of_a_surface_region() {
    let mut state = BlurState::new(1);
    assert!(BlurElement::from_surface(&mut state, None, request()).is_none());
    assert_eq!(state.commit, CommitCounter { count: 0 });
    let region = vec![rect(1, 2, 3, 4)];
    let element = BlurElement::from_surface(&mut state, Some(&region), request()).unwrap();
    assert_eq!(element.region, vec![rect(21, 22, 3, 4)]);
}

#[test]
fn commit_counter_distances() {
    let mut commit = CommitCounter { count: 5 };
    assert_eq!(commit.distance(None), None);
    assert_eq!(commit.distance(Some(CommitCounter { count: 5 })), Some(0));
    assert_eq!(commit.distance(Some(CommitCounter { count: 2 })), Some(3));
    assert_eq!(commit.distance(Some(CommitCounter { count: 6 })), None);
    commit.increment();
    assert_eq!(commit, CommitCounter { count: 6 });
    let mut last = CommitCounter { count: usize::MAX };
    last.increment();
    assert_eq!(last, CommitCounter { count: 0 });
}

#[test]
fn unknown_commit_damages_the_backdrop() {
    let mut state = BlurState::new(3);
    let element = BlurElement::from_state(&mut state, Size { w: 1, h: 1 }, request()).unwrap();
    let backdrop = rect(20, 20, 100, 50);
    assert_eq!(element.damage_since(backdrop, None), vec![backdrop]);
    let ahead = CommitCounter { count: 99 };
    assert_eq!(element.damage_since(backdrop, Some(ahead)), vec![backdrop]);
}

#[test]
fn backdrop_without_surroundings() {
    assert_eq!(
        BlurElement::backdrop_region(
            Point { x: 20, y: 20 },
            Size { w: 140, h: 30 },
            Size { w: 40, h: 40 }
        ),
        rect(20, 20, 100, 0)
    );
}

#[test]
fn drawn_damage_by_shown_part() {
    let rects = [rect(0, 0, 10, 10), rect(20, 0, 10, 10)];
    let damage = [rect(5, 5, 20, 2), rect(100, 100, 5, 5), rect(0, 0, 1, 1)];
    assert_eq!(
        draw_damage(&rects, &damage),
        vec![rect(5, 5, 5, 2), rect(0, 0, 1, 1), rect(20, 5, 5, 2)]
    );
    assert!(draw_damage(&[], &damage).is_empty());
    assert!(draw_damage(&rects, &[]).is_empty());
}

#[test]
fn drawing_needs_a_captured_texture() {
    let rects = [rect(0, 0, 10, 10)];
    let damage = [rect(5, 5, 20, 20)];
    assert_eq!(
        draw(TextureSlot::Missing, &rects, &damage),
        Err(DrawError::NotCaptured)
    );
    assert_eq!(draw(TextureSlot::Empty, &rects, &damage), Ok(None));
    assert_eq!(
        draw(TextureSlot::Present, &rects, &damage),
        Ok(Some(vec![rect(5, 5, 5, 5)]))
    );
}
