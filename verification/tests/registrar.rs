use ddns::registrar::{RegStep, RegistrarExchange, UpdateOutcome};

fn fresh() -> RegistrarExchange {
    RegistrarExchange::new(
        String::from("user"),
        String::from("pass"),
        String::from("example.ru"),
        String::from("1.2.3.4"),
    )
}

#[test]
fn full_exchange_succeeds() {
    let mut ex = fresh();
    assert_eq!(ex.pending_step(), Some(RegStep::Clear));
    assert!(ex.outcome().is_none());
    ex.on_response("v1\nSuccess\n");
    assert_eq!(ex.pending_step(), Some(RegStep::AddAlias));
    ex.on_response("v1\nSuccess 123456\n");
    assert!(ex.pending_step().is_none());
    match ex.outcome() {
        Some(UpdateOutcome::Updated) => {}
        other => panic!("expected Updated, got {:?}", other),
    }
}

#[test]
fn rejected_clear_never_reaches_add_alias() {
    let mut ex = fresh();
    ex.on_response("v1\nError: bad_domain\n");
    assert!(ex.pending_step().is_none());
    match ex.outcome() {
        Some(UpdateOutcome::RegistrarRejected(reason)) => {
            assert_eq!(reason, "Error: bad_domain");
        }
        other => panic!("expected RegistrarRejected, got {:?}", other),
    }
}

#[test]
fn rejected_add_alias_reports_reason() {
    let mut ex = fresh();
    ex.on_response("v1\nSuccess\n");
    ex.on_response("v1\nError: no_such_zone\n");
    match ex.outcome() {
        Some(UpdateOutcome::RegistrarRejected(reason)) => {
            assert_eq!(reason, "Error: no_such_zone");
        }
        other => panic!("expected RegistrarRejected, got {:?}", other),
    }
}

#[test]
fn response_without_second_line_fails_distinctly() {
    let mut ex = fresh();
    ex.on_response("just one line");
    assert!(ex.pending_step().is_none());
    match ex.outcome() {
        Some(UpdateOutcome::TransportFailed(reason)) => {
            assert_eq!(reason, "malformed server response");
        }
        other => panic!("expected TransportFailed, got {:?}", other),
    }
}

#[test]
fn transport_error_ends_the_exchange() {
    let mut ex = fresh();
    ex.on_transport_error(String::from("connection refused"));
    assert!(ex.pending_step().is_none());
    match ex.outcome() {
        Some(UpdateOutcome::TransportFailed(reason)) => {
            assert_eq!(reason, "connection refused");
        }
        other => panic!("expected TransportFailed, got {:?}", other),
    }
}

#[test]
fn repeating_an_identical_update_succeeds_both_times() {
    for _ in 0..2 {
        let mut ex = fresh();
        ex.on_response("v1\nSuccess\n");
        ex.on_response("v1\nSuccess 123456\n");
        match ex.outcome() {
            Some(UpdateOutcome::Updated) => {}
            other => panic!("expected Updated, got {:?}", other),
        }
    }
}

#[test]
fn result_line_strips_carriage_return() {
    let mut ex = fresh();
    ex.on_response("v1\r\nSuccess\r\n");
    assert_eq!(ex.pending_step(), Some(RegStep::AddAlias));
}

#[test]
fn result_line_needs_no_trailing_newline() {
    let mut ex = fresh();
    ex.on_response("v1\nSuccess");
    assert_eq!(ex.pending_step(), Some(RegStep::AddAlias));
}

#[test]
fn success_must_open_the_line() {
    let mut ex = fresh();
    ex.on_response("v1\nnot Success\n");
    match ex.outcome() {
        Some(UpdateOutcome::RegistrarRejected(reason)) => {
            assert_eq!(reason, "not Success");
        }
        other => panic!("expected RegistrarRejected, got {:?}", other),
    }
}

#[test]
fn clear_form_carries_the_fixed_fields() {
    let ex = fresh();
    let form = ex.form_fields(RegStep::Clear);
    let expected = vec![
        ("username", "user"),
        ("password", "pass"),
        ("domain_name", "example.ru"),
        ("subdomain", "@"),
        ("output_format", "plain"),
        ("output_content_type", "plain"),
    ];
    assert_eq!(form.len(), expected.len());
    for (got, want) in form.iter().zip(expected.iter()) {
        assert_eq!(got.0, want.0);
        assert_eq!(got.1, want.1);
    }
}

#[test]
fn add_alias_form_adds_the_address() {
    let ex = fresh();
    let form = ex.form_fields(RegStep::AddAlias);
    assert_eq!(form.len(), 7);
    assert_eq!(form[6].0, "ipaddr");
    assert_eq!(form[6].1, "1.2.3.4");
}

#[test]
fn endpoint_urls_name_the_two_calls() {
    assert_eq!(
        RegistrarExchange::endpoint_url(RegStep::Clear),
        "https://api.reg.ru/api/regru2/zone/clear"
    );
    assert_eq!(
        RegistrarExchange::endpoint_url(RegStep::AddAlias),
        "https://api.reg.ru/api/regru2/zone/add_alias"
    );
}
