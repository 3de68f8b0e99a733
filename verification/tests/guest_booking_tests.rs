//! Guest booking tests: ownership, reference format and availability
//! rules, stated over plain values.

struct MockBooking {
    id: &'static str,
    created_by_user_id: Option<&'static str>,
}

struct MockDatedBooking {
    check_in_date: u32,
}

struct MockCancellableBooking {
    owner: Option<&'static str>,
    status: &'static str,
}

/// Test: Guest booking should set created_by_user_id
#[test]
fn test_guest_booking_sets_created_by_user_id() {
    // Guest bookings should have:
    // - created_by_user_id: Some(user_id) - linked to the guest account
    // - creation_source: "guest" - to distinguish from staff-created bookings
    let creation_source = "guest";
    assert_eq!(creation_source, "guest");

    // Staff bookings would have creation_source = "staff"
    let staff_source = "staff";
    assert_ne!(creation_source, staff_source);
}

/// Test: Guest booking should set creation_source='guest'
#[test]
fn test_guest_booking_creation_source() {
    // Valid creation sources
    let valid_sources = ["staff", "guest"];

    for source in valid_sources {
        assert!(source == "staff" || source == "guest");
    }

    // Guest booking should always use "guest" source
    let guest_booking_source = "guest";
    assert_eq!(guest_booking_source, "guest");
}

/// Test: Booking reference format should be BK-YYYYMMDD-XXXX
#[test]
fn test_booking_reference_format() {
    // Reference format: BK-YYYYMMDD-XXXX
    // Example: BK-20251210-A1B2
    let example_reference = "BK-20251210-A1B2";

    // Must start with "BK-"
    assert!(example_reference.starts_with("BK-"));

    // Must have correct length (BK- + 8 digits + - + 4 chars = 16 chars)
    assert_eq!(example_reference.len(), 16);

    // Date part should be 8 digits
    let date_part = &example_reference[3..11];
    assert!(date_part.chars().all(|c| c.is_ascii_digit()));

    // Separator
    assert_eq!(&example_reference[11..12], "-");

    // Random suffix should be 4 alphanumeric chars
    let suffix = &example_reference[12..16];
    assert!(suffix.chars().all(|c| c.is_ascii_alphanumeric()));
}

/// Test: Guest cannot book a room that is unavailable (already booked)
#[test]
fn test_guest_cannot_book_unavailable_room() {
    // Room availability is checked via date overlap: a room is
    // unavailable if an existing booking overlaps the requested
    // check-in and check-out dates.
    let existing_check_in: u32 = 15; // Dec 15
    let existing_check_out: u32 = 18; // Dec 18

    // Overlapping request (Dec 16 to Dec 20)
    let request_check_in_1: u32 = 16;
    let request_check_out_1: u32 = 20;

    // Overlap detection: request starts before existing ends AND request ends after existing starts
    let overlaps_1 =
        request_check_in_1 < existing_check_out && request_check_out_1 > existing_check_in;
    assert!(overlaps_1, "Should detect overlap");

    // Non-overlapping request (Dec 18 to Dec 20)
    let request_check_in_2: u32 = 18;
    let request_check_out_2: u32 = 20;

    let overlaps_2 =
        request_check_in_2 < existing_check_out && request_check_out_2 > existing_check_in;
    assert!(
        !overlaps_2,
        "Should not detect overlap when starting exactly at checkout"
    );
}

/// Test: Guest can only see their own bookings
#[test]
fn test_guest_only_sees_own_bookings() {
    // When listing bookings for a guest, should filter by created_by_user_id
    // Guest A should not see Guest B's bookings
    let guest_a_id = "550e8400-e29b-41d4-a716-446655440000";
    let guest_b_id = "550e8400-e29b-41d4-a716-446655440001";

    assert_ne!(guest_a_id, guest_b_id);

    let bookings = vec![
        MockBooking { id: "booking-1", created_by_user_id: Some(guest_a_id) },
        MockBooking { id: "booking-2", created_by_user_id: Some(guest_b_id) },
        MockBooking { id: "booking-3", created_by_user_id: Some(guest_a_id) },
        MockBooking { id: "booking-4", created_by_user_id: None }, // Staff-created
    ];
    assert!(bookings.iter().all(|b| !b.id.is_empty()));

    // Filter bookings for guest A
    let guest_a_bookings: Vec<_> = bookings
        .iter()
        .filter(|b| b.created_by_user_id == Some(guest_a_id))
        .collect();

    // Guest A should only see their 2 bookings
    assert_eq!(guest_a_bookings.len(), 2);
    assert!(guest_a_bookings
        .iter()
        .all(|b| b.created_by_user_id == Some(guest_a_id)));

    // Filter bookings for guest B
    let guest_b_bookings: Vec<_> = bookings
        .iter()
        .filter(|b| b.created_by_user_id == Some(guest_b_id))
        .collect();

    // Guest B should only see their 1 booking
    assert_eq!(guest_b_bookings.len(), 1);
    assert!(guest_b_bookings
        .iter()
        .all(|b| b.created_by_user_id == Some(guest_b_id)));
}

/// Test: Guest cannot access another guest's booking by ID
#[test]
fn test_guest_cannot_access_other_guests_booking() {
    // The ownership check: a booking that does not belong to the
    // requesting guest is reported as not found.
    let guest_a_id = Some("550e8400-e29b-41d4-a716-446655440000");
    let guest_b_id = Some("550e8400-e29b-41d4-a716-446655440001");

    // Booking owned by guest A
    let booking_owner = guest_a_id;

    // Guest A requesting their own booking - should succeed
    let guest_a_can_access = booking_owner == guest_a_id;
    assert!(guest_a_can_access, "Guest A should access their own booking");

    // Guest B requesting guest A's booking - should fail (404 Not Found)
    let guest_b_can_access = booking_owner == guest_b_id;
    assert!(!guest_b_can_access, "Guest B should NOT access Guest A's booking");

    // The response for unauthorized access should be 404 Not Found
    // (not 403 Forbidden, to avoid leaking information about booking existence)
    let expected_error_for_unauthorized = "not_found";
    assert_eq!(expected_error_for_unauthorized, "not_found");
}

/// Test: Booking list should be sorted by check-in date
#[test]
fn test_bookings_sorted_by_checkin_date() {
    // Bookings should be sorted with upcoming/future bookings first
    let mut bookings = vec![
        MockDatedBooking { check_in_date: 15 },
        MockDatedBooking { check_in_date: 20 },
        MockDatedBooking { check_in_date: 10 },
        MockDatedBooking { check_in_date: 25 },
    ];

    // Sort descending (most recent first)
    bookings.sort_by(|a, b| b.check_in_date.cmp(&a.check_in_date));

    // Verify sorted order
    assert_eq!(bookings[0].check_in_date, 25);
    assert_eq!(bookings[1].check_in_date, 20);
    assert_eq!(bookings[2].check_in_date, 15);
    assert_eq!(bookings[3].check_in_date, 10);
}

/// Test: Guest cannot cancel another guest's booking
#[test]
fn test_guest_cannot_cancel_other_guests_booking() {
    // The ownership check: cancelling a booking that does not belong to
    // the requesting guest is reported as not found.
    let guest_a_id = Some("550e8400-e29b-41d4-a716-446655440000");
    let guest_b_id = Some("550e8400-e29b-41d4-a716-446655440001");

    // Booking owned by guest A with status "upcoming" (cancellable)
    let booking = MockCancellableBooking { owner: guest_a_id, status: "upcoming" };

    // Guest A can cancel their own upcoming booking
    let guest_a_can_cancel = booking.owner == guest_a_id && booking.status == "upcoming";
    assert!(guest_a_can_cancel, "Guest A should be able to cancel their own booking");

    // Guest B cannot cancel guest A's booking
    let guest_b_can_cancel = booking.owner == guest_b_id && booking.status == "upcoming";
    assert!(!guest_b_can_cancel, "Guest B should NOT be able to cancel Guest A's booking");

    // The error returned for unauthorized cancellation should be 404 Not Found
    // This prevents information leakage about whether a booking exists
    let expected_error = "not_found";
    assert_eq!(expected_error, "not_found");
}
