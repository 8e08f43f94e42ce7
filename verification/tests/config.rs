use ardupilot_bridge::config::{Config, HomeError, HomeLocation};

#[test]
fn default_configuration() {
    let config = Config::default();
    assert_eq!(config.elodin_addr, "127.0.0.1:2240");
    assert_eq!(config.servo_port, 9002);
    assert_eq!(config.ap_host, "127.0.0.1");
    assert_eq!(config.num_motors, 4);
    assert_eq!(config.hitl_port, 0);
    assert_eq!(config.can_interface, "");
    assert_eq!(config.home, "37.7749,-122.4194,10,270");
}

#[test]
fn home_location_fields() {
    let home = HomeLocation::parse("37.7749,-122.4194,10,270").unwrap();
    assert_eq!(home.lat_deg, "37.7749");
    assert_eq!(home.lon_deg, "-122.4194");
    assert_eq!(home.alt_m, "10");
    assert_eq!(home.lat_deg.parse::<f64>().unwrap(), 37.7749);
}

#[test]
fn home_location_without_heading() {
    let home = HomeLocation::parse("1,2,3").unwrap();
    assert_eq!(home.alt_m, "3");
}

/// What the standard library makes of the fields of a home location.
fn expected(text: &str) -> Result<(), HomeError> {
    let parts: Vec<&str> = text.split(',').collect();
    if parts.len() < 3 {
        return Err(HomeError::TooFewFields { fields: parts.len() });
    }
    for field in 0..3 {
        if parts[field].parse::<f64>().is_err() {
            return Err(if parts[field].is_empty() {
                HomeError::EmptyNumber { field }
            } else {
                HomeError::InvalidNumber { field }
            });
        }
    }
    Ok(())
}

fn check(text: &str) {
    match HomeLocation::parse(text) {
        Ok(home) => {
            let parts: Vec<&str> = text.split(',').collect();
            assert_eq!(expected(text), Ok(()), "{text}");
            assert_eq!(home.lat_deg, parts[0]);
            assert_eq!(home.lon_deg, parts[1]);
            assert_eq!(home.alt_m, parts[2]);
        }
        Err(error) => assert_eq!(expected(text), Err(error), "{text}"),
    }
}

#[test]
fn home_location_splits_like_the_standard_library() {
    for text in [
        "", ",", "a", "a,b", "1,2", "1,2,", ",,", ",,,", "1,,3", "1,2,3,x", "x,y,z", "1,x,3",
        "1,2,x", "é,ß,漢字,,x", " 1 , 2 ,3,4,5", "-1.5,+2e3,.5,", "1,2,3,4,5",
    ] {
        check(text);
    }
}

#[test]
fn home_location_errors() {
    assert_eq!(
        HomeLocation::parse("1,2").unwrap_err(),
        HomeError::TooFewFields { fields: 2 }
    );
    assert_eq!(
        HomeLocation::parse("1,,x").unwrap_err(),
        HomeError::EmptyNumber { field: 1 }
    );
    assert_eq!(
        HomeLocation::parse("1,x,3").unwrap_err(),
        HomeError::InvalidNumber { field: 1 }
    );
    assert_eq!(
        HomeLocation::parse("x,y,").unwrap_err(),
        HomeError::InvalidNumber { field: 0 }
    );
}

#[test]
fn numbers_are_told_like_the_standard_library() {
    let alphabet = ['0', '7', '.', 'e', 'E', '+', '-', ' ', '_'];
    let mut texts: Vec<String> = vec![String::new()];
    let mut start = 0;
    for _ in 0..5 {
        let end = texts.len();
        for i in start..end {
            for c in alphabet {
                let mut text = texts[i].clone();
                text.push(c);
                texts.push(text);
            }
        }
        start = end;
    }
    for text in &texts {
        check(&format!("1,2,{text}"));
    }
}

#[test]
fn number_words_are_told_like_the_standard_library() {
    for word in [
        "inf", "INF", "iNf", "+inf", "-Inf", "in", "infi", "infinity", "-INFINITY", "InFiNiTy",
        "infinit", "infinityy", "nan", "NaN", "+NAN", "-nan", "nano", "--nan", "+-inf", "inf.",
        "1inf", "e5", "1e5inf", "0x10", "1e400", "1e-999999999999999999999", "١", "１",
        "123456789012345678901234567890.5", "ınf", "\u{212A}", "1.2.3", "1e5.0", "1e5e5",
    ] {
        check(&format!("{word},2,3"));
        check(&format!("1,2,{word},4"));
    }
}
