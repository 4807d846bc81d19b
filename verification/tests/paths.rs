use pathtracer::path::Bounce;
use pathtracer::path::Path;
use pathtracer::path::BOUNCE_LIMIT;
use pathtracer::Hit;

fn follow(hits: &[Hit]) -> Vec<Bounce> {
    let mut path = Path::new();
    let mut bounces = Vec::new();
    for hit in hits {
        if !path.is_alive() {
            break;
        }
        bounces.push(path.bounce(*hit));
    }
    bounces
}

#[test]
fn new_path_is_alive() {
    let path = Path::new();
    assert_eq!(path, Path { rays: 0, ended: false });
    assert!(path.is_alive());
    assert_eq!(BOUNCE_LIMIT, 3);
}

#[test]
fn miss_ends_the_path() {
    let mut path = Path::new();
    assert_eq!(path.bounce(Hit::Miss), Bounce::Leave);
    assert_eq!(path, Path { rays: 1, ended: true });
    assert!(!path.is_alive());
}

#[test]
fn sun_is_gathered_and_ends_the_path() {
    let mut path = Path::new();
    assert_eq!(path.bounce(Hit::Sun), Bounce::Emit);
    assert_eq!(path, Path { rays: 1, ended: true });
    assert!(!path.is_alive());
}

#[test]
fn letter_mirrors_and_wall_scatters() {
    let mut path = Path::new();
    assert_eq!(path.bounce(Hit::Letter), Bounce::Mirror);
    assert_eq!(path, Path { rays: 1, ended: false });
    assert!(path.is_alive());
    assert_eq!(path.bounce(Hit::Wall), Bounce::Scatter);
    assert_eq!(path, Path { rays: 2, ended: false });
    assert!(path.is_alive());
}

#[test]
fn third_ray_is_the_last() {
    let mut path = Path::new();
    assert_eq!(path.bounce(Hit::Wall), Bounce::Scatter);
    assert_eq!(path.bounce(Hit::Wall), Bounce::Scatter);
    assert_eq!(path.bounce(Hit::Wall), Bounce::Scatter);
    assert_eq!(path, Path { rays: 3, ended: false });
    assert!(!path.is_alive());
}

#[test]
fn ended_path_takes_nothing_more() {
    let mut path = Path::new();
    assert_eq!(path.bounce(Hit::Sun), Bounce::Emit);
    assert_eq!(path.bounce(Hit::Sun), Bounce::Leave);
    assert_eq!(path.bounce(Hit::Wall), Bounce::Leave);
    assert_eq!(path, Path { rays: 1, ended: true });
    let mut spent = Path { rays: 3, ended: false };
    assert_eq!(spent.bounce(Hit::Letter), Bounce::Leave);
    assert_eq!(spent, Path { rays: 3, ended: false });
}

#[test]
fn paths_march_at_most_three_rays() {
    assert_eq!(follow(&[Hit::Wall; 10]), vec![Bounce::Scatter; 3]);
    assert_eq!(follow(&[Hit::Letter; 10]), vec![Bounce::Mirror; 3]);
    assert_eq!(
        follow(&[Hit::Letter, Hit::Wall, Hit::Sun, Hit::Sun]),
        vec![Bounce::Mirror, Bounce::Scatter, Bounce::Emit]
    );
}

#[test]
fn paths_end_where_they_leave_or_reach_the_sun() {
    assert_eq!(follow(&[Hit::Wall, Hit::Sun, Hit::Wall]), vec![Bounce::Scatter, Bounce::Emit]);
    assert_eq!(follow(&[Hit::Miss, Hit::Wall, Hit::Wall]), vec![Bounce::Leave]);
    assert_eq!(follow(&[]), Vec::new());
}
