use typing_trainer::words::get_sweet_words_for_typer;

#[test]
fn no_words_below_three_in_a_row() {
    assert_eq!(get_sweet_words_for_typer(0), "");
    assert_eq!(get_sweet_words_for_typer(1), "");
    assert_eq!(get_sweet_words_for_typer(2), "");
}

#[test]
fn first_tier_words() {
    assert_eq!(get_sweet_words_for_typer(3), "Wow! 3 in a row! Let's do it!");
    assert_eq!(get_sweet_words_for_typer(50), "Wow! 50 in a row! Let's do it!");
}

#[test]
fn second_tier_words() {
    assert_eq!(
        get_sweet_words_for_typer(51),
        "51 in a row! You know something, don't you?"
    );
    assert_eq!(
        get_sweet_words_for_typer(100),
        "100 in a row! You know something, don't you?"
    );
}

#[test]
fn third_tier_words() {
    assert_eq!(
        get_sweet_words_for_typer(101),
        "Proffesional typer! 101 in a row!"
    );
    assert_eq!(
        get_sweet_words_for_typer(200),
        "Proffesional typer! 200 in a row!"
    );
}

#[test]
fn fourth_tier_words() {
    assert_eq!(
        get_sweet_words_for_typer(201),
        "SOMEONE STOP THIS KEYS-REAPER! 201 IN A ROW!"
    );
    assert_eq!(
        get_sweet_words_for_typer(500),
        "SOMEONE STOP THIS KEYS-REAPER! 500 IN A ROW!"
    );
}

#[test]
fn fifth_tier_words() {
    assert_eq!(
        get_sweet_words_for_typer(501),
        "Don't you want to relax a bit, perfectionsim-cultist? 501 in a row."
    );
    assert_eq!(
        get_sweet_words_for_typer(29999),
        "Don't you want to relax a bit, perfectionsim-cultist? 29999 in a row."
    );
}

#[test]
fn no_words_from_thirty_thousand_on() {
    assert_eq!(get_sweet_words_for_typer(30000), "");
    assert_eq!(get_sweet_words_for_typer(100000), "");
    assert_eq!(get_sweet_words_for_typer(u32::MAX), "");
}
