use llama_backend::NativeCall;
use llama_backend::Backend;
use llama_backend::NumaStrategy;
use llama_backend::UnknownNumaCode;

fn all_strategies() -> Vec<NumaStrategy> {
    vec![
        NumaStrategy::Disable,
        NumaStrategy::Distribute,
        NumaStrategy::Isolate,
        NumaStrategy::Numactl,
        NumaStrategy::Mirror,
        NumaStrategy::Count,
    ]
}

#[test]
fn strategy_codes_are_the_engines() {
    assert_eq!(u32::from(NumaStrategy::Disable), 0);
    assert_eq!(u32::from(NumaStrategy::Distribute), 1);
    assert_eq!(u32::from(NumaStrategy::Isolate), 2);
    assert_eq!(u32::from(NumaStrategy::Numactl), 3);
    assert_eq!(u32::from(NumaStrategy::Mirror), 4);
    assert_eq!(u32::from(NumaStrategy::Count), 5);
}

#[test]
fn strategy_of_each_code() {
    assert_eq!(NumaStrategy::try_from(0u32), Ok(NumaStrategy::Disable));
    assert_eq!(NumaStrategy::try_from(1u32), Ok(NumaStrategy::Distribute));
    assert_eq!(NumaStrategy::try_from(2u32), Ok(NumaStrategy::Isolate));
    assert_eq!(NumaStrategy::try_from(3u32), Ok(NumaStrategy::Numactl));
    assert_eq!(NumaStrategy::try_from(4u32), Ok(NumaStrategy::Mirror));
    assert_eq!(NumaStrategy::try_from(5u32), Ok(NumaStrategy::Count));
}

#[test]
fn strategy_round_trip_through_code() {
    for strategy in all_strategies() {
        let code: u32 = strategy.into();
        assert_eq!(NumaStrategy::try_from(code), Ok(strategy));
    }
}

#[test]
fn code_round_trip_through_strategy() {
    for code in 0u32..=5 {
        let strategy = NumaStrategy::try_from(code).unwrap();
        assert_eq!(u32::from(strategy), code);
    }
}

#[test]
fn strategy_codes_are_distinct() {
    let all = all_strategies();
    for (i, a) in all.iter().enumerate() {
        for (j, b) in all.iter().enumerate() {
            assert_eq!(u32::from(*a) == u32::from(*b), i == j);
        }
    }
}

#[test]
fn unknown_code_is_rejected_with_the_code() {
    assert_eq!(NumaStrategy::try_from(6u32), Err(UnknownNumaCode { code: 6 }));
    assert_eq!(NumaStrategy::try_from(7u32), Err(UnknownNumaCode { code: 7 }));
    assert_eq!(
        NumaStrategy::try_from(u32::MAX),
        Err(UnknownNumaCode { code: u32::MAX })
    );
}

#[test]
fn exactly_six_codes_are_accepted() {
    let accepted = (0u32..=1000)
        .filter(|code| NumaStrategy::try_from(*code).is_ok())
        .count();
    assert_eq!(accepted, 6);
}

#[test]
fn startup_passes_the_code_of_the_strategy() {
    for strategy in all_strategies() {
        let (_backend, calls) = Backend::init_with_numa(strategy);
        assert_eq!(
            calls,
            vec![
                NativeCall::BackendInit,
                NativeCall::NumaInit(u32::from(strategy)),
                NativeCall::LogSet,
            ]
        );
    }
}

#[test]
fn startup_with_mirror_passes_four() {
    let (_backend, calls) = Backend::init_with_numa(NumaStrategy::Mirror);
    assert_eq!(
        calls,
        vec![
            NativeCall::BackendInit,
            NativeCall::NumaInit(4),
            NativeCall::LogSet,
        ]
    );
}

#[test]
fn default_startup_is_distribute() {
    let (_backend, calls) = Backend::init();
    assert_eq!(
        calls,
        vec![
            NativeCall::BackendInit,
            NativeCall::NumaInit(1),
            NativeCall::LogSet,
        ]
    );
    let (_other, explicit) = Backend::init_with_numa(NumaStrategy::Distribute);
    assert_eq!(calls, explicit);
}

#[test]
fn dropping_the_marker_is_one_teardown() {
    let (backend, _calls) = Backend::init();
    assert_eq!(backend.drop(), vec![NativeCall::BackendFree]);
}
