use translit::bulgarian::STREAMLINED_SYSTEM;
use translit::gost779::{GOST779B_BY, GOST779B_RU, GOST779B_UA};
use translit::macedonian::DIGRAPH_SYSTEM;
use translit::order_n_995::ORDER_N_995_RU;
use translit::passport2013::ITERNATIONAL_PASSPORT_2013_RU;
use translit::{
    digraph_system, gost779b_by, gost779b_ru, gost779b_ua, iternational_passport_2013_ru,
    order_n_995_ru, streamlined_system, BulgarianOfficial, CharsMapping, FromLatin, Gost779B,
    Language, MacedonianOfficial, Passport2013, ToLatin, Transliterator,
};

#[test]
fn gost_russian_terminal_both_ways() {
    let gost = Gost779B::new(Language::Ru);
    assert_eq!(gost.to_latin("Терминал"), "Terminal");
    assert_eq!(gost.from_latin("Terminal"), "Терминал");
}

#[test]
fn gost_russian_country() {
    assert_eq!(Gost779B::new(Language::Ru).to_latin("Россия"), "Rossiya");
}

#[test]
fn passport_address() {
    assert_eq!(
        Passport2013::new().to_latin("Москва, Тверская улица"),
        "Moskva, Tverskaia ulitsa"
    );
}

#[test]
fn bulgarian_tales() {
    assert_eq!(BulgarianOfficial::new().to_latin("Разни приказки"), "Razni prikazki");
}

#[test]
fn macedonian_word() {
    assert_eq!(MacedonianOfficial::new().to_latin("Надзор"), "Nadzor");
}

#[test]
fn driving_licence_name() {
    let translit = Transliterator::new(order_n_995_ru());
    assert_eq!(translit.to_latin("Щербаков Юрий"), "Shcherbakov Iurii");
    assert_eq!(translit.to_latin("Ольга"), "Olga");
}

#[test]
fn custom_table_from_gost() {
    let overrides: CharsMapping = vec![
        (" ", "-"),
        (",", ""),
        (":", ""),
        (";", ""),
        ("№", ""),
        ("ь", ""),
        ("ъ", ""),
        ("Ы", "Y"),
        ("Э", "E"),
        ("ы", "y"),
        ("э", "e"),
    ];
    let mut custom_table = gost779b_ru();
    custom_table.retain(|row| !row.1.contains("`"));
    custom_table.retain(|row| !row.1.contains("#"));
    custom_table.extend(overrides.iter());
    let translit = Transliterator::new(custom_table);
    let source = "Общие вопросы по языку, получение помощи".to_lowercase();
    assert_eq!(
        "obshhie-voprosy-po-yazyku-poluchenie-pomoshhi",
        translit.to_latin(&source)
    );
}

#[test]
fn tables_hold_their_rows() {
    assert_eq!(gost779b_ru(), GOST779B_RU.to_vec());
    assert_eq!(gost779b_by(), GOST779B_BY.to_vec());
    assert_eq!(gost779b_ua(), GOST779B_UA.to_vec());
    assert_eq!(streamlined_system(), STREAMLINED_SYSTEM.to_vec());
    assert_eq!(digraph_system(), DIGRAPH_SYSTEM.to_vec());
    assert_eq!(order_n_995_ru(), ORDER_N_995_RU.to_vec());
    assert_eq!(iternational_passport_2013_ru(), ITERNATIONAL_PASSPORT_2013_RU.to_vec());
    assert_eq!(gost779b_ru().len(), 65);
    assert_eq!(gost779b_ru()[6], ("Ё", "Yo"));
    assert_eq!(gost779b_by()[21], ("Ў", "U`"));
    assert_eq!(gost779b_ua()[4], ("Ґ", "G`"));
    assert_eq!(streamlined_system()[25], ("Щ", "Sht"));
    assert_eq!(digraph_system()[5], ("Ѓ", "Gj"));
    assert_eq!(order_n_995_ru()[29], ("Ь", ""));
    assert_eq!(iternational_passport_2013_ru()[66], ("№", "#"));
}

#[test]
fn gost_letters_come_back() {
    for (lang, table) in [
        (Language::Ru, gost779b_ru()),
        (Language::By, gost779b_by()),
        (Language::Ua, gost779b_ua()),
    ] {
        let gost = Gost779B::new(lang);
        let mut alphabet = String::new();
        for (letter, latin) in table.iter() {
            assert_eq!(gost.to_latin(letter), *latin);
            assert_eq!(gost.from_latin(latin), *letter);
            assert_eq!(gost.from_latin(&gost.to_latin(letter)), *letter);
            alphabet.push_str(letter);
            alphabet.push(' ');
        }
        assert_eq!(gost.from_latin(&gost.to_latin(&alphabet)), alphabet);
    }
}

#[test]
fn gost_text_comes_back() {
    let gost = Gost779B::new(Language::Ru);
    for text in [
        "Съешь ещё этих мягких французских булок, да выпей же чаю.",
        "Широкая электрификация южных губерний даст мощный толчок подъёму сельского хозяйства.",
        "№ 5: ЩУКА, ЁЖ, ЭХО, ЮГ, ЯК",
    ] {
        assert_eq!(gost.from_latin(&gost.to_latin(text)), text);
    }
    let gost = Gost779B::new(Language::Ua);
    let text = "Жебракують філософи при ґанку церкви в Гадячі, ще й шатро їхнє п'яне знаємо.";
    assert_eq!(gost.from_latin(&gost.to_latin(text)), text);
    let gost = Gost779B::new(Language::By);
    let text = "У Іўі худы жвавы чорт у зялёнай камізэльцы пабег пад'есці фаршу з юшкай.";
    assert_eq!(gost.from_latin(&gost.to_latin(text)), text);
}

#[test]
fn gost_token_read_across_two_letters_is_lost() {
    let gost = Gost779B::new(Language::Ru);
    assert_eq!(gost.to_latin("ьь"), "``");
    assert_eq!(gost.from_latin("``"), "ъ");
    assert_eq!(gost.to_latin("ыь"), "y``");
    assert_ne!(gost.from_latin("y``"), "ыь");
    let gost = Gost779B::new(Language::By);
    assert_eq!(gost.to_latin("згода"), "zhoda");
    assert_eq!(gost.from_latin("zhoda"), "жода");
}

#[test]
fn gost_latin_letter_in_the_text_is_lost() {
    let gost = Gost779B::new(Language::Ru);
    assert_eq!(gost.to_latin("код a"), "kod a");
    assert_eq!(gost.from_latin("kod a"), "код а");
    assert_ne!(gost.from_latin(&gost.to_latin("код a")), "код a");
}

#[test]
fn shared_latin_token_does_not_come_back() {
    let passport = Transliterator::new(iternational_passport_2013_ru());
    assert_eq!(passport.to_latin("Е"), "E");
    assert_eq!(passport.to_latin("Ё"), "E");
    assert_eq!(passport.to_latin("Э"), "E");
    assert_eq!(passport.from_latin("E"), "Е");
    assert_ne!(passport.from_latin(&passport.to_latin("Э")), "Э");
    assert_ne!(passport.from_latin(&passport.to_latin("Ё")), "Ё");

    let bulgarian = Transliterator::new(streamlined_system());
    assert_eq!(bulgarian.to_latin("ъ"), "a");
    assert_eq!(bulgarian.to_latin("а"), "a");
    assert_eq!(bulgarian.from_latin("a"), "а");
    assert_ne!(bulgarian.from_latin(&bulgarian.to_latin("съвест")), "съвест");

    let macedonian = Transliterator::new(digraph_system());
    assert_eq!(macedonian.to_latin("ѕ"), "dz");
    assert_eq!(macedonian.to_latin("дз"), "dz");
    assert_eq!(macedonian.from_latin("dz"), "ѕ");
    assert_ne!(macedonian.from_latin(&macedonian.to_latin("надзор")), "надзор");
}

#[test]
fn soft_sign_is_left_out_of_passports() {
    let passport = Passport2013::new();
    assert_eq!(passport.to_latin("Большой № 7"), "Bolshoi # 7");
    assert_eq!(passport.to_latin("ЬЬ"), "");
}
