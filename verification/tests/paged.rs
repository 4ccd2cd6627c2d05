use typed_kv::paged;

#[test]
fn paged_stops_one_run_after_the_last_change() {
    for changes in 0u32..6 {
        let mut calls = 0u32;
        let out: Result<(), ()> = paged(0u32, |cursor: &mut u32| {
            calls += 1;
            if *cursor < changes {
                *cursor += 1;
            }
            Ok(())
        });
        assert_eq!(out, Ok(()));
        assert_eq!(calls, changes + 1);
    }
}

#[test]
fn paged_starts_from_the_given_value() {
    let mut seen: Vec<u32> = Vec::new();
    let out: Result<(), ()> = paged(7u32, |cursor: &mut u32| {
        seen.push(*cursor);
        if *cursor < 10 {
            *cursor += 1;
        }
        Ok(())
    });
    assert_eq!(out, Ok(()));
    assert_eq!(seen, vec![7, 8, 9, 10]);
}

#[test]
fn paged_hands_on_a_failure_at_once() {
    let mut calls = 0u32;
    let out: Result<(), &'static str> = paged(String::new(), |cursor: &mut String| {
        calls += 1;
        if cursor.len() == 2 {
            return Err("full");
        }
        cursor.push('x');
        Ok(())
    });
    assert_eq!(out, Err("full"));
    assert_eq!(calls, 3);
}

#[test]
fn paged_compares_with_the_run_before_only() {
    // The cursor comes back to where it started, but never stays put.
    let mut calls = 0u32;
    let out: Result<(), ()> = paged(0u8, |cursor: &mut u8| {
        calls += 1;
        *cursor = match (*cursor, calls) {
            (_, n) if n >= 5 => *cursor,
            (0, _) => 1,
            _ => 0,
        };
        Ok(())
    });
    assert_eq!(out, Ok(()));
    assert_eq!(calls, 5);
}
