use taskchampion_swift::status::{status_from_string, Status};

#[test]
fn status_names_of_the_data_model() {
    assert_eq!(status_from_string("pending"), Status::Pending);
    assert_eq!(status_from_string("completed"), Status::Completed);
    assert_eq!(status_from_string("deleted"), Status::Deleted);
    assert_eq!(status_from_string("recurring"), Status::Recurring);
}

#[test]
fn status_other_text_is_unknown() {
    assert_eq!(status_from_string("wishful"), Status::Unknown("wishful".to_string()));
    assert_eq!(status_from_string("Pending"), Status::Unknown("Pending".to_string()));
    assert_eq!(status_from_string(""), Status::Unknown(String::new()));
}

#[test]
fn status_display_names() {
    assert_eq!(Status::Pending.get_value(), "Pending");
    assert_eq!(Status::Completed.get_value(), "Completed");
    assert_eq!(Status::Deleted.get_value(), "Deleted");
    assert_eq!(Status::Recurring.get_value(), "Recurring");
    assert_eq!(Status::Unknown("wishful".to_string()).get_value(), "Unknown");
}
