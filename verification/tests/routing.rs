use license_exam::router::{HandlerId, Routable, Route, Router, Verb};
use license_exam::routes::build_router;
use license_exam::routes::game::GameRouter;
use license_exam::routes::health::HealthRouter;
use license_exam::routes::users::UserRouter;

#[test]
fn can_probe_health() {
    let router = build_router();
    let handler = router.route(Verb::Get, &"/health".to_string());
    assert!(matches!(handler, HandlerId::Health));
    assert_eq!(license_exam::routes::health::post_next_instruction(), 200);
}

#[test]
fn can_receive_404() {
    let router = build_router();
    let handler = router.route(Verb::Get, &"/fakepath".to_string());
    assert!(matches!(handler, HandlerId::NotFound));
}

#[test]
fn verbs_on_one_path_are_independent() {
    // one path registered under both verbs, with different handlers
    let mut builder = Router::builder();
    builder.routes.push((Route(Verb::Get, "/a".to_string()), HandlerId::Health));
    builder.routes.push((Route(Verb::Post, "/a".to_string()), HandlerId::Login));
    assert!(!builder.has_duplicate_routes());
    let router = builder.not_found_route(HandlerId::NotFound);
    assert!(matches!(router.route(Verb::Get, &"/a".to_string()), HandlerId::Health));
    assert!(matches!(router.route(Verb::Post, &"/a".to_string()), HandlerId::Login));
    assert!(matches!(router.route(Verb::Get, &"/b".to_string()), HandlerId::NotFound));
}

#[test]
fn duplicate_registration_is_detected() {
    let mut builder = Router::builder();
    builder.routes.push((Route(Verb::Get, "/a".to_string()), HandlerId::Health));
    builder.routes.push((Route(Verb::Get, "/a".to_string()), HandlerId::Login));
    assert!(builder.has_duplicate_routes());
}

#[test]
fn full_table_dispatches_each_route() {
    let router = build_router();
    let cases: Vec<(Verb, &str)> = vec![
        (Verb::Post, "/register"),
        (Verb::Post, "/login"),
        (Verb::Get, "/user"),
        (Verb::Post, "/next_instruction"),
        (Verb::Post, "/instructions"),
        (Verb::Post, "/fizz"),
        (Verb::Post, "/buzz"),
        (Verb::Get, "/health"),
    ];
    let expected = vec![
        HandlerId::RegisterUser,
        HandlerId::Login,
        HandlerId::GetUser,
        HandlerId::NextInstruction,
        HandlerId::AckInstructions,
        HandlerId::AckFizz,
        HandlerId::AckBuzz,
        HandlerId::Health,
    ];
    for ((verb, path), want) in cases.into_iter().zip(expected) {
        let got = router.route(verb, &path.to_string());
        assert_eq!(got, want, "route {:?} {}", verb, path);
    }
    // the GET verb never lands on a POST-registered handler
    assert!(matches!(router.route(Verb::Get, &"/register".to_string()), HandlerId::NotFound));
    // a contributor's list matches what the table was built from
    assert_eq!(UserRouter.routes().len(), 3);
    assert_eq!(GameRouter.routes().len(), 4);
    assert_eq!(HealthRouter.routes().len(), 1);
}
