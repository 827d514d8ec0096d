use border_async::config::{
    ActorManagerConfig, AsyncTrainerConfig, PriorityConfig, ReplayBufferConfig, WeightNormalizer,
};
use border_async::error::ConfigError;
use border_async::iw_scheduler::EXPONENT_ONE;
use border_async::layout::check_pow2;
use border_async::messages::PushedItemMessage;
use border_async::stratify::{point_in_segment, segment_start_of};

#[test]
fn powers_of_two_are_told_apart() {
    for e in 0..20 {
        assert!(check_pow2(1usize << e));
    }
    for n in [0usize, 3, 5, 6, 7, 9, 12, 100, 1023, 1025, usize::MAX] {
        assert!(!check_pow2(n));
    }
}

#[test]
fn good_options_pass_the_check() {
    let p = PriorityConfig {
        alpha: EXPONENT_ONE * 3 / 5,
        beta0: EXPONENT_ONE * 2 / 5,
        anneal_steps: 1000,
        normalizer: WeightNormalizer::Batch,
    };
    assert_eq!(p.validate(), Ok(()));
    let r = ReplayBufferConfig { capacity: 1024, batch_size: 32, priority_config: Some(p) };
    assert_eq!(r.validate(), Ok(()));
    let mut m = ActorManagerConfig {
        num_actors: 4,
        ingestion_queue_capacity: 8,
        model_broadcast_interval: 100,
    };
    assert_eq!(m.validate(), Ok(()));
    m.num_actors = 0;
    m.ingestion_queue_capacity = 0;
    assert_eq!(m.validate(), Ok(()));
    m.model_broadcast_interval = 0;
    assert_eq!(m.validate(), Err(ConfigError::ZeroInterval));
    let mut t = AsyncTrainerConfig {
        max_opts: 1000,
        warmup_size: 0,
        eval_interval: 10,
        checkpoint_interval: 100,
        checkpoint_dir: String::new(),
    };
    assert_eq!(t.validate(), Ok(()));
    t.max_opts = 0;
    assert_eq!(t.validate(), Ok(()));
    t.eval_interval = 0;
    assert_eq!(t.validate(), Err(ConfigError::ZeroInterval));
}

#[test]
fn the_priority_options_are_checked_in_order() {
    let mut p = PriorityConfig {
        alpha: EXPONENT_ONE + 1,
        beta0: EXPONENT_ONE + 1,
        anneal_steps: 0,
        normalizer: WeightNormalizer::All,
    };
    assert_eq!(p.validate(), Err(ConfigError::AlphaOutOfRange));
    p.alpha = 0;
    assert_eq!(p.validate(), Err(ConfigError::BetaOutOfRange));
    p.beta0 = EXPONENT_ONE;
    assert_eq!(p.validate(), Err(ConfigError::ZeroAnnealSteps));
    p.anneal_steps = 1;
    assert_eq!(p.validate(), Ok(()));
}

#[test]
fn the_segments_cut_the_mass_evenly() {
    assert_eq!(segment_start_of(10, 4, 0), 0);
    assert_eq!(segment_start_of(10, 4, 1), 2);
    assert_eq!(segment_start_of(10, 4, 2), 5);
    assert_eq!(segment_start_of(10, 4, 3), 7);
    assert_eq!(segment_start_of(10, 4, 4), 10);
    assert_eq!(segment_start_of(u128::MAX, usize::MAX, usize::MAX), u128::MAX);
    assert_eq!(segment_start_of(u128::MAX, usize::MAX, 1), u128::MAX / usize::MAX as u128);
    assert_eq!(segment_start_of(1000, 7, 3), 428);
    assert_eq!(segment_start_of(0, 3, 2), 0);
}

#[test]
fn a_draw_is_folded_into_its_segment() {
    // segment 1 of 4 over a mass of 10 is [2, 5)
    assert_eq!(point_in_segment(10, 4, 1, 0), 2);
    assert_eq!(point_in_segment(10, 4, 1, 1), 3);
    assert_eq!(point_in_segment(10, 4, 1, 2), 4);
    assert_eq!(point_in_segment(10, 4, 1, 3), 2);
    assert_eq!(point_in_segment(10, 4, 3, u64::MAX), 7 + (u64::MAX % 3) as u128);
}

#[test]
fn a_segment_of_no_width_yields_its_start() {
    // a mass of 2 in 4 segments: the starts are 0, 0, 1, 1, 2
    assert_eq!(point_in_segment(2, 4, 0, 99), 0);
    assert_eq!(point_in_segment(2, 4, 1, 99), 0);
    assert_eq!(point_in_segment(2, 4, 2, 99), 1);
    assert_eq!(point_in_segment(2, 4, 3, 99), 1);
    assert_eq!(point_in_segment(0, 4, 3, 99), 0);
}

#[test]
fn a_message_carries_its_sender_and_its_items() {
    let message = PushedItemMessage { id: 7, pushed_items: vec!['a', 'b'] };
    assert_eq!(message.id, 7);
    assert_eq!(message.pushed_items, vec!['a', 'b']);
}

#[test]
fn milliseconds_are_whole() {
    assert_eq!(border_async::tracking::millis_of(0, 0), 0);
    assert_eq!(border_async::tracking::millis_of(1, 999_999), 1000);
    assert_eq!(border_async::tracking::millis_of(1, 1_000_000), 1001);
    assert_eq!(border_async::tracking::millis_of(12, 345_678_901), 12_345);
    assert_eq!(
        border_async::tracking::millis_of(u64::MAX, 999_999_999),
        u64::MAX as u128 * 1000 + 999
    );
}

#[test]
fn the_artifacts_lie_under_the_root() {
    let base = |uri: &str, root: &str| {
        border_async::tracking::artifact_base(uri.as_bytes(), root.as_bytes())
            .map(|p| String::from_utf8(p).unwrap())
    };
    assert_eq!(base("mlflow-artifacts:/0/abc/artifacts", "/srv"), Some("/srv/0/abc/artifacts".into()));
    assert_eq!(base("mlflow-artifacts:/0/abc", "/srv/"), Some("/srv/0/abc".into()));
    assert_eq!(base("mlflow-artifacts://0//abc", "/srv"), Some("/srv/0//abc".into()));
    assert_eq!(base("mlflow-artifacts:/a", ""), Some("a".into()));
    assert_eq!(base("mlflow-artifacts:", "/srv"), Some("/srv/".into()));
    assert_eq!(base("mlflow-artifacts:/", "/srv"), Some("/srv/".into()));
}

#[test]
fn idle_components_count_for_nothing_at_the_ends() {
    let base = |uri: &str| {
        border_async::tracking::artifact_base(uri.as_bytes(), b"/srv")
            .map(|p| String::from_utf8(p).unwrap())
    };
    assert_eq!(base("mlflow-artifacts:/0/abc/"), Some("/srv/0/abc".into()));
    assert_eq!(base("mlflow-artifacts:/0/abc//"), Some("/srv/0/abc".into()));
    assert_eq!(base("mlflow-artifacts:/0/abc/."), Some("/srv/0/abc".into()));
    assert_eq!(base("mlflow-artifacts:/0/abc/./"), Some("/srv/0/abc".into()));
    assert_eq!(base("mlflow-artifacts:/./0/abc"), Some("/srv/0/abc".into()));
    assert_eq!(base("mlflow-artifacts:/.//./0/abc"), Some("/srv/0/abc".into()));
    assert_eq!(base("mlflow-artifacts:/0/./abc"), Some("/srv/0/./abc".into()));
    assert_eq!(base("mlflow-artifacts:/."), Some("/srv/".into()));
    assert_eq!(base("mlflow-artifacts:/./"), Some("/srv/".into()));
    assert_eq!(base("mlflow-artifacts:/../x"), Some("/srv/../x".into()));
    assert_eq!(base("mlflow-artifacts:/x/.."), Some("/srv/x/..".into()));
    assert_eq!(base("mlflow-artifacts:/.hidden"), Some("/srv/.hidden".into()));
    assert_eq!(base("mlflow-artifacts:/a."), Some("/srv/a.".into()));
}

#[test]
fn the_artifacts_lie_where_the_path_functions_put_them() {
    for uri in [
        "mlflow-artifacts:/0/abc/artifacts",
        "mlflow-artifacts:/0/abc/",
        "mlflow-artifacts://0//abc//",
        "mlflow-artifacts:/./0/abc/.",
        "mlflow-artifacts:/0/./abc",
        "mlflow-artifacts:",
        "mlflow-artifacts:/",
        "mlflow-artifacts:/.",
        "mlflow-artifacts:/../x",
        "mlflow-artifacts:/.hidden",
        "mlflow-artifacts:x",
        "file:/0/abc",
        "/mlflow-artifacts:/0",
        "",
    ] {
        for root in ["/srv", "/srv/", "", "rel/dir"] {
            let ours = border_async::tracking::artifact_base(uri.as_bytes(), root.as_bytes())
                .map(|p| String::from_utf8(p).unwrap());
            let theirs = std::path::Path::new(uri)
                .strip_prefix("mlflow-artifacts:/")
                .ok()
                .map(|rest| std::path::Path::new(root).join(rest).to_str().unwrap().to_string());
            assert_eq!(ours, theirs);
        }
    }
}

#[test]
fn an_address_of_another_scheme_has_no_artifacts() {
    let base = |uri: &str| border_async::tracking::artifact_base(uri.as_bytes(), b"/srv");
    assert_eq!(base("file:/0/abc"), None);
    assert_eq!(base("mlflow-artifacts"), None);
    assert_eq!(base("mlflow-artifacts:0/abc"), None);
    assert_eq!(base("/mlflow-artifacts:/0/abc"), None);
    assert_eq!(base(""), None);
    assert!(border_async::tracking::starts_with_scheme(b"mlflow-artifacts:/x"));
    assert!(!border_async::tracking::starts_with_scheme(b"mlflow-artifactz:/x"));
}
