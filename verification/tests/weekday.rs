use time::weekday::Weekday;

const WEEK: [Weekday; 7] = [
    Weekday::Monday,
    Weekday::Tuesday,
    Weekday::Wednesday,
    Weekday::Thursday,
    Weekday::Friday,
    Weekday::Saturday,
    Weekday::Sunday,
];

#[test]
fn weekday_numbers() {
    for (index, day) in WEEK.iter().enumerate() {
        let index = index as u8;
        assert_eq!(day.number_days_from_monday(), index);
        assert_eq!(day.number_from_monday(), index + 1);
        assert_eq!(day.number_days_from_sunday(), (index + 1) % 7);
        assert_eq!(day.number_from_sunday(), (index + 1) % 7 + 1);
        assert_eq!(Weekday::from_number_days_from_monday(index), *day);
        assert_eq!(Weekday::from_number_days_from_monday(index + 7), *day);
        assert_eq!(Weekday::from_number_days_from_sunday((index + 1) % 7), *day);
    }
    assert_eq!(Weekday::Sunday.number_days_from_sunday(), 0);
    assert_eq!(Weekday::Saturday.number_from_sunday(), 7);
    assert_eq!(Weekday::from_number_days_from_monday(255), Weekday::Thursday);
    assert_eq!(Weekday::from_number_days_from_sunday(255), Weekday::Wednesday);
}

#[test]
fn weekday_steps_wrap_around() {
    assert_eq!(Weekday::Sunday.next(), Weekday::Monday);
    assert_eq!(Weekday::Monday.previous(), Weekday::Sunday);
    assert_eq!(Weekday::Wednesday.next(), Weekday::Thursday);
    assert_eq!(Weekday::Wednesday.previous(), Weekday::Tuesday);
    assert_eq!(Weekday::Monday.succeeding(0), Weekday::Monday);
    assert_eq!(Weekday::Monday.succeeding(7), Weekday::Monday);
    assert_eq!(Weekday::Monday.succeeding(10), Weekday::Thursday);
    assert_eq!(Weekday::Monday.succeeding(255), Weekday::Thursday);
    assert_eq!(Weekday::Monday.preceding(1), Weekday::Sunday);
    assert_eq!(Weekday::Monday.preceding(10), Weekday::Friday);
    assert_eq!(Weekday::Monday.preceding(255), Weekday::Friday);
    for day in WEEK {
        for n in 0..=255u8 {
            assert_eq!(day.succeeding(n).preceding(n), day);
        }
    }
}
