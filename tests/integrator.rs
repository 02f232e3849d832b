use raytracer::integrator::{Action, Bounce, PathEnd, PathState};

#[test]
fn zero_depth_is_black_without_query() {
    let p = PathState::new(0);
    assert_eq!(p.action(), Action::Finish(PathEnd::Black));
}

#[test]
fn new_path_queries_scene() {
    let p = PathState::new(50);
    assert_eq!(p, PathState { max_depth: 50, depth: 50, bounces: 0 });
    assert_eq!(p.action(), Action::Query);
}

#[test]
fn miss_ends_in_sky() {
    let mut p = PathState::new(3);
    assert_eq!(p.record(Bounce::Miss), Some(PathEnd::Sky));
    assert_eq!(p, PathState { max_depth: 3, depth: 3, bounces: 0 });
}

#[test]
fn absorbed_ends_in_black() {
    let mut p = PathState::new(3);
    assert_eq!(p.record(Bounce::Scattered), None);
    assert_eq!(p.record(Bounce::Absorbed), Some(PathEnd::Black));
    assert_eq!(p, PathState { max_depth: 3, depth: 2, bounces: 1 });
}

#[test]
fn scattering_runs_out_of_depth() {
    let mut p = PathState::new(2);
    assert_eq!(p.record(Bounce::Scattered), None);
    assert_eq!(p.action(), Action::Query);
    assert_eq!(p.record(Bounce::Scattered), None);
    assert_eq!(p, PathState { max_depth: 2, depth: 0, bounces: 2 });
    assert_eq!(p.action(), Action::Finish(PathEnd::Black));
}
