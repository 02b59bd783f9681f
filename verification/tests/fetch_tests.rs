use random_restaurant::errors::PipelineError;
use random_restaurant::fetch::{run_redirects, HttpResponse, MAX_REDIRECTS};

fn redirect(to: &str) -> HttpResponse {
    HttpResponse {
        status: 302,
        location: Some(to.to_string()),
        content_type: None,
        content_disposition: None,
        content_length: None,
        body: Vec::new(),
    }
}

fn plain(status: u16, body: &[u8]) -> HttpResponse {
    HttpResponse {
        status,
        location: None,
        content_type: None,
        content_disposition: None,
        content_length: None,
        body: body.to_vec(),
    }
}

#[test]
fn five_redirects_then_200_succeeds() {
    assert_eq!(MAX_REDIRECTS, 5);
    let mut script = Vec::new();
    for i in 0..5 {
        script.push(redirect(&format!("https://hop/{}", i)));
    }
    script.push(plain(200, b"payload"));
    let r = run_redirects(script);
    match r {
        Ok(res) => {
            assert_eq!(res.status, 200);
            assert_eq!(res.body, b"payload".to_vec());
        },
        Err(e) => panic!("expected success, got {:?}", e),
    }
}

#[test]
fn six_redirects_fail_with_too_many() {
    let mut script = Vec::new();
    for i in 0..6 {
        script.push(redirect(&format!("https://hop/{}", i)));
    }
    script.push(plain(200, b""));
    match run_redirects(script) {
        Err(PipelineError::TooManyRedirects) => (),
        other => panic!("expected TooManyRedirects, got {:?}", other.map(|r| r.status)),
    }
}

#[test]
fn redirect_without_location_fails() {
    let script = vec![plain(302, b"")];
    match run_redirects(script) {
        Err(PipelineError::MissingLocationHeader) => (),
        other => panic!("expected MissingLocationHeader, got {:?}", other.map(|r| r.status)),
    }
}

#[test]
fn direct_404_is_terminal_success() {
    let script = vec![plain(404, b"gone")];
    match run_redirects(script) {
        Ok(res) => assert_eq!(res.status, 404),
        Err(e) => panic!("404 must pass through, got {:?}", e),
    }
}

#[test]
fn unexpected_status_is_fatal() {
    let script = vec![plain(500, b"")];
    match run_redirects(script) {
        Err(PipelineError::UnexpectedStatus(500)) => (),
        other => panic!("expected UnexpectedStatus(500), got {:?}", other.map(|r| r.status)),
    }
}

#[test]
fn exhausted_transcript_is_upstream_failure() {
    let script = vec![redirect("https://hop/0")];
    match run_redirects(script) {
        Err(PipelineError::UpstreamUnavailable) => (),
        other => panic!("expected UpstreamUnavailable, got {:?}", other.map(|r| r.status)),
    }
}
