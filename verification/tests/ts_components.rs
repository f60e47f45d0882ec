use std::time::Instant;

use rand::Rng;

use scheduler::time::ts_components::TSComponents;

fn gen_timestamps() -> Vec<(u64, (u32, u32, u32))> {
    let mut rng = rand::thread_rng();
    let mut timestamps: Vec<(u64, (u32, u32, u32))> = Vec::with_capacity(100);
    for _ in 0..1000 {
        let year: i32 = rng.gen_range(1970..2038);
        let month: u32 = rng.gen_range(1..13);
        let day: u32 = rng.gen_range(1..29);

        let date_string = format!("{:04}-{:02}-{:02} 00:00:00", year, month, day);
        let date = chrono::NaiveDateTime::parse_from_str(&date_string, "%Y-%m-%d %H:%M:%S")
            .expect("Failed to parse date");
        let timestamp = date.and_utc().timestamp();

        timestamps.push((timestamp as u64, (year as u32, month, day)));
    }

    timestamps
}

#[test]
fn test_timestamp() {
    let start = Instant::now();
    let ts = TSComponents::from(253389174348);
    println!("Took: {}ns", start.elapsed().as_nanos());
    assert_eq!(ts.as_timestamp(), 253389174348);

    let timestamps = gen_timestamps();
    let start = Instant::now();
    for (timestamp, expected) in timestamps {
        let ts = TSComponents::from(timestamp);
        assert_eq!(ts.year(), expected.0 as u64);
        assert_eq!(ts.month() as u32, expected.1);
        assert_eq!(ts.day() as u32, expected.2);
    }
    println!("Took: {}μs", start.elapsed().as_micros());
}
