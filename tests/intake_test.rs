use scheduler::intake::{ApiErrors, CreateRequest, INVALID_INTERVAL, INVALID_SCRIPT, INVALID_URL};
use scheduler::messages::Messages;

fn request(url: &str, interval: u64, script: &str) -> CreateRequest {
    CreateRequest::new(url.to_string(), interval, script.to_string())
}

fn rejection(r: &CreateRequest) -> ApiErrors {
    r.validate().expect_err("request must be rejected")
}

#[test]
fn create_empty_url() {
    let error = rejection(&request("", 5, "qwerty"));
    assert_eq!(error.status_code(), 422);
    assert_eq!(error.reply_text(), INVALID_URL);
}

#[test]
fn create_empty_script() {
    let error = rejection(&request("https://google.com", 5, ""));
    assert_eq!(error.status_code(), 422);
    assert_eq!(error.reply_text(), INVALID_SCRIPT);
}

#[test]
fn create_invalid_interval() {
    let error = rejection(&request("https://google.com", 2, "qwerty"));
    assert_eq!(error.status_code(), 422);
    assert_eq!(error.reply_text(), INVALID_INTERVAL);
}

#[test]
fn create_all_fields_invalid() {
    let error = rejection(&request("", 2, ""));
    assert_eq!(error.status_code(), 422);
    let expected_error = format!(
        "{}. {}. {}",
        String::from(INVALID_URL),
        String::from(INVALID_INTERVAL),
        String::from(INVALID_SCRIPT)
    );
    assert_eq!(error.reply_text(), expected_error);
    let lines = format!("{}\n{}\n{}", INVALID_URL, INVALID_INTERVAL, INVALID_SCRIPT);
    assert_eq!(error.message(), lines);
}

#[test]
fn create_success() {
    let r = request("https://google.com", 5, "qwerty");
    assert!(r.validate().is_ok());
    let message = r.into_message("f47ac10b-58cc-4372-a567-0e02b2c3d479".to_string());
    assert_eq!(
        message,
        Messages::Create {
            id: "f47ac10b-58cc-4372-a567-0e02b2c3d479".to_string(),
            url: "https://google.com".to_string(),
            script: "qwerty".to_string(),
            interval: 5,
        }
    );
}

#[test]
fn interval_bounds() {
    assert!(request("u", 5, "s").validate().is_ok());
    assert!(request("u", 604_800, "s").validate().is_ok());
    assert!(request("u", 0, "s").validate().is_err());
    assert!(request("u", 604_805, "s").validate().is_err());
    assert!(request("u", 12, "s").validate().is_err());
}

#[test]
fn server_error_reply() {
    let error = ApiErrors::Server("connection reset".to_string());
    assert_eq!(error.status_code(), 500);
    assert_eq!(error.reply_text(), "Internal server error. try again.");
    assert_eq!(error.message(), "Internal server error. connection reset");
}
