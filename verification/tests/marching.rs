use pathtracer::march::March;
use pathtracer::march::Marcher;
use pathtracer::march::Sample;
use pathtracer::march::SAMPLE_LIMIT;
use pathtracer::Hit;

fn far(kind: Hit) -> Sample {
    Sample { near: false, kind, within_reach: true }
}

fn run(samples: &[Sample]) -> (Option<Hit>, u32) {
    let mut marcher = Marcher::new();
    for sample in samples {
        if let Some(hit) = marcher.step(*sample).result() {
            return (Some(hit), marcher.samples);
        }
    }
    (None, marcher.samples)
}

#[test]
fn marcher_starts_without_samples() {
    assert_eq!(Marcher::new().samples, 0);
    assert_eq!(SAMPLE_LIMIT, 100);
}

#[test]
fn near_sample_lands_on_its_kind() {
    let mut marcher = Marcher::new();
    let march = marcher.step(Sample { near: true, kind: Hit::Letter, within_reach: true });
    assert_eq!(march, March::Landed(Hit::Letter));
    assert_eq!(march.result(), Some(Hit::Letter));
    assert_eq!(marcher.samples, 1);
}

#[test]
fn near_sample_lands_even_out_of_reach() {
    let mut marcher = Marcher::new();
    let march = marcher.step(Sample { near: true, kind: Hit::Wall, within_reach: false });
    assert_eq!(march, March::Landed(Hit::Wall));
}

#[test]
fn far_sample_within_reach_advances() {
    let mut marcher = Marcher::new();
    let march = marcher.step(far(Hit::Wall));
    assert_eq!(march, March::Advance);
    assert_eq!(march.result(), None);
    assert_eq!(marcher.samples, 1);
}

#[test]
fn far_sample_out_of_reach_escapes() {
    let mut marcher = Marcher::new();
    let march = marcher.step(Sample { near: false, kind: Hit::Wall, within_reach: false });
    assert_eq!(march, March::Escaped);
    assert_eq!(march.result(), Some(Hit::Miss));
}

#[test]
fn hundredth_sample_lands_wherever_it_falls() {
    let mut marcher = Marcher::new();
    for taken in 1..100u32 {
        assert_eq!(marcher.step(far(Hit::Wall)), March::Advance);
        assert_eq!(marcher.samples, taken);
    }
    assert_eq!(marcher.step(far(Hit::Letter)), March::Landed(Hit::Letter));
    assert_eq!(marcher.samples, 100);
}

#[test]
fn hundredth_sample_lands_even_out_of_reach() {
    let mut marcher = Marcher { samples: 99 };
    let march = marcher.step(Sample { near: false, kind: Hit::Sun, within_reach: false });
    assert_eq!(march, March::Landed(Hit::Sun));
}

#[test]
fn sample_count_stops_at_the_limit() {
    let mut marcher = Marcher { samples: 100 };
    assert_eq!(marcher.step(far(Hit::Wall)), March::Landed(Hit::Wall));
    assert_eq!(marcher.samples, 100);
}

#[test]
fn march_towards_the_sun_ends_on_the_sun() {
    // Straight up from the floor: the sun plane comes nearer by the sampled
    // distance each time, and the fourth sample is under the threshold.
    let samples = [far(Hit::Sun), far(Hit::Sun), far(Hit::Sun), Sample {
        near: true,
        kind: Hit::Sun,
        within_reach: true,
    }];
    assert_eq!(run(&samples), (Some(Hit::Sun), 4));
    // And where no sample is ever near, the limit ends the march on the sun.
    let endless = [far(Hit::Sun); 150];
    assert_eq!(run(&endless), (Some(Hit::Sun), 100));
}

#[test]
fn march_away_from_the_scene_misses() {
    let samples = [far(Hit::Wall), far(Hit::Wall), Sample {
        near: false,
        kind: Hit::Wall,
        within_reach: false,
    }];
    assert_eq!(run(&samples), (Some(Hit::Miss), 3));
}

#[test]
fn march_is_unfinished_while_samples_only_advance() {
    let samples = [far(Hit::Wall); 99];
    assert_eq!(run(&samples), (None, 99));
}
