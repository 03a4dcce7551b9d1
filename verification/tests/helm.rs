use adelie::backends::helm::{validate_scheme, Helm};
use adelie::backends::{Backend, BackendError};
use adelie::error::ErrorKind;

fn chart(repo: &str, name: &str) -> Helm {
    Helm::new(repo.to_string(), name.to_string())
}

const INDEX: &str = "apiVersion: v1
entries:
  api:
    - name: api
      version: 1.2.0
    - name: api
      version: 1.3.0
    - name: api
      version: 1.4.0-rc.1
  web:
    - version: v2.0.1
    - version: v2.1.0
    - version: v2.0.9
  preview:
    - version: 0.1.0-alpha
    - version: 0.1.0-beta
  broken:
    - version: 1.0.0
    - name: broken
  odd:
    - version: 1.0.0
    - version: not a version
";

#[test]
fn new_keeps_repository_and_chart() {
    let helm = chart("https://charts.example.com/", "api");
    assert_eq!(helm.repo, "https://charts.example.com/");
    assert_eq!(helm.chart, "api");
}

#[test]
fn initialize_accepts_https() {
    assert_eq!(chart("https://charts.example.com/", "api").initialize(), Ok(()));
    assert_eq!(chart("HTTPS://charts.example.com/", "api").initialize(), Ok(()));
}

#[test]
fn initialize_refuses_oci_as_not_yet_supported() {
    let result = chart("oci://registry.example.com/charts/", "api").initialize();
    assert_eq!(result, Err(BackendError::NotYetSupported));
    assert_eq!(result.unwrap_err().kind(), ErrorKind::Config);
    assert_eq!(BackendError::NotYetSupported.message(), "OCI repositories are not supported yet.");
}

#[test]
fn initialize_refuses_other_schemes() {
    let result = chart("http://charts.example.com/", "api").initialize();
    assert_eq!(result, Err(BackendError::UnsupportedScheme));
    assert_eq!(result.unwrap_err().kind(), ErrorKind::Config);
    assert_eq!(
        BackendError::UnsupportedScheme.message(),
        "Only HTTPS repositories are supported."
    );
    assert_eq!(
        chart("file:///srv/charts/", "api").initialize(),
        Err(BackendError::UnsupportedScheme)
    );
}

#[test]
fn initialize_refuses_what_is_no_url() {
    let result = chart("charts.example.com", "api").initialize();
    assert_eq!(result, Err(BackendError::InvalidUrl));
    assert_eq!(result.unwrap_err().kind(), ErrorKind::Config);
}

#[test]
fn validate_scheme_decides_by_the_scheme_alone() {
    assert_eq!(validate_scheme("https"), Ok(()));
    assert_eq!(validate_scheme("oci"), Err(BackendError::NotYetSupported));
    assert_eq!(validate_scheme("http"), Err(BackendError::UnsupportedScheme));
    assert_eq!(validate_scheme(""), Err(BackendError::UnsupportedScheme));
}

#[test]
fn index_url_joins_the_index_to_the_repository() {
    assert_eq!(
        chart("https://charts.example.com/", "api").index_url(),
        Ok("https://charts.example.com/index.yaml".to_string())
    );
    assert_eq!(
        chart("https://example.com/stable/charts/", "api").index_url(),
        Ok("https://example.com/stable/charts/index.yaml".to_string())
    );
    assert_eq!(
        chart("https://example.com/stable/charts", "api").index_url(),
        Ok("https://example.com/stable/index.yaml".to_string())
    );
    assert_eq!(chart("not a url", "api").index_url(), Err(BackendError::InvalidUrl));
}

#[test]
fn latest_version_skips_the_release_candidate() {
    let helm = chart("https://charts.example.com/", "api");
    assert_eq!(helm.latest_version(INDEX), Ok("1.3.0".to_string()));
}

#[test]
fn latest_version_is_returned_verbatim() {
    let helm = chart("https://charts.example.com/", "web");
    assert_eq!(helm.latest_version(INDEX), Ok("v2.1.0".to_string()));
}

#[test]
fn latest_version_fails_for_an_unknown_chart() {
    let helm = chart("https://charts.example.com/", "missing");
    let result = helm.latest_version(INDEX);
    assert_eq!(result, Err(BackendError::ChartNotFound));
    assert_eq!(result.unwrap_err().kind(), ErrorKind::NotFound);
    assert_eq!(BackendError::ChartNotFound.message(), "Chart not found");
}

#[test]
fn latest_version_fails_without_entries() {
    let helm = chart("https://charts.example.com/", "api");
    assert_eq!(helm.latest_version("apiVersion: v1\n"), Err(BackendError::ChartNotFound));
    assert_eq!(
        helm.latest_version("entries:\n  api: none\n"),
        Err(BackendError::ChartNotFound)
    );
}

#[test]
fn latest_version_fails_without_a_release() {
    let helm = chart("https://charts.example.com/", "preview");
    let result = helm.latest_version(INDEX);
    assert_eq!(result, Err(BackendError::NoVersionsFound));
    assert_eq!(result.unwrap_err().kind(), ErrorKind::NotFound);
    assert_eq!(
        chart("https://charts.example.com/", "api").latest_version("entries:\n  api: []\n"),
        Err(BackendError::NoVersionsFound)
    );
}

#[test]
fn latest_version_fails_on_an_entry_without_version() {
    let result = chart("https://charts.example.com/", "broken").latest_version(INDEX);
    assert_eq!(result, Err(BackendError::MalformedVersion));
    assert_eq!(result.unwrap_err().kind(), ErrorKind::Parse);
}

#[test]
fn latest_version_fails_on_a_version_that_does_not_parse() {
    let result = chart("https://charts.example.com/", "odd").latest_version(INDEX);
    assert_eq!(result, Err(BackendError::MalformedVersion));
}

#[test]
fn latest_version_fails_on_a_malformed_index() {
    let result = chart("https://charts.example.com/", "api").latest_version("entries: [unclosed");
    assert_eq!(result, Err(BackendError::MalformedIndex));
    assert_eq!(result.unwrap_err().kind(), ErrorKind::Parse);
}

#[test]
fn latest_version_keeps_the_first_of_level_versions() {
    let index = "entries:\n  api:\n    - version: 1.3.0+first\n    - version: 1.3.0+second\n";
    let helm = chart("https://charts.example.com/", "api");
    assert_eq!(helm.latest_version(index), Ok("1.3.0+first".to_string()));
}
