use mega_sena::analyser::exceeds_tolerance;
use mega_sena::csv_campos::limpar_campo;
use mega_sena::analyser::find_conflicting_draw;
use mega_sena::analyser::game_already_exists;
use mega_sena::analyser::generate_trios;
use mega_sena::analyser::has_repeated_trio;
use mega_sena::analyser::has_repeated_trio_by_sets;
use mega_sena::analyser::overlap_count;
use mega_sena::mega_sena::soma_jogo;
use mega_sena::mega_sena::validar_jogo;
use mega_sena::EngineError;
use mega_sena::HistoricoMegaSena;
use mega_sena::MegaSena;

fn draw(concurso: i64, numeros: &[i64]) -> HistoricoMegaSena {
    HistoricoMegaSena {
        concurso,
        data: String::from("2020-01-01"),
        numeros: numeros.to_vec(),
    }
}

fn game(numeros: &[i64]) -> MegaSena {
    MegaSena { id: 0, jogo: numeros.to_vec() }
}

#[test]
fn trios_of_six_distinct_numbers_are_twenty_unique_subsets() {
    let input: Vec<i64> = vec![7, 1, 33, 60, 12, 45];
    let trios = generate_trios(&input).unwrap();
    assert_eq!(trios.len(), 20);
    let mut canonical: Vec<[i64; 3]> = Vec::new();
    for trio in &trios {
        let mut sorted = *trio;
        sorted.sort();
        // three distinct values
        assert!(sorted[0] < sorted[1] && sorted[1] < sorted[2]);
        // a subset of the input
        for v in sorted.iter() {
            assert!(input.contains(v));
        }
        canonical.push(sorted);
    }
    canonical.sort();
    canonical.dedup();
    assert_eq!(canonical.len(), 20);
}

#[test]
fn trios_come_in_position_order() {
    let input: Vec<i64> = vec![1, 2, 3, 4, 5, 6];
    let trios = generate_trios(&input).unwrap();
    let expected: Vec<[i64; 3]> = vec![
        [1, 2, 3],
        [1, 2, 4],
        [1, 2, 5],
        [1, 2, 6],
        [1, 3, 4],
        [1, 3, 5],
        [1, 3, 6],
        [1, 4, 5],
        [1, 4, 6],
        [1, 5, 6],
        [2, 3, 4],
        [2, 3, 5],
        [2, 3, 6],
        [2, 4, 5],
        [2, 4, 6],
        [2, 5, 6],
        [3, 4, 5],
        [3, 4, 6],
        [3, 5, 6],
        [4, 5, 6],
    ];
    assert_eq!(trios, expected);
}

#[test]
fn trios_preserve_the_input_order_of_positions() {
    let input: Vec<i64> = vec![60, 50, 40, 30, 20, 10];
    let trios = generate_trios(&input).unwrap();
    assert_eq!(trios[0], [60, 50, 40]);
    assert_eq!(trios[19], [30, 20, 10]);
}

#[test]
fn trios_reject_wrong_arity() {
    let empty: Vec<i64> = Vec::new();
    assert_eq!(generate_trios(&empty), Err(EngineError::InvalidInput));
    let five: Vec<i64> = vec![1, 2, 3, 4, 5];
    assert_eq!(generate_trios(&five), Err(EngineError::InvalidInput));
    let seven: Vec<i64> = vec![1, 2, 3, 4, 5, 6, 7];
    assert_eq!(generate_trios(&seven), Err(EngineError::InvalidInput));
}

#[test]
fn repeated_trio_found_when_a_draw_contains_one() {
    let store = vec![draw(1, &[1, 2, 3, 10, 20, 30])];
    let candidate = game(&[1, 2, 3, 40, 50, 60]);
    assert_eq!(has_repeated_trio(&store, &candidate), Ok(true));
}

#[test]
fn repeated_trio_absent_when_no_trio_is_contained() {
    let store = vec![draw(1, &[1, 2, 3, 10, 20, 30])];
    let candidate = game(&[1, 2, 40, 50, 60, 4]);
    assert_eq!(has_repeated_trio(&store, &candidate), Ok(false));
}

#[test]
fn repeated_trio_rejects_wrong_arity() {
    let store = vec![draw(1, &[1, 2, 3, 10, 20, 30])];
    let candidate = game(&[1, 2, 3]);
    assert_eq!(has_repeated_trio(&store, &candidate), Err(EngineError::InvalidInput));
}

#[test]
fn repeated_trio_by_sets_scans_all_trios() {
    let store = vec![draw(7, &[4, 8, 15, 16, 23, 42])];
    let miss: Vec<[i64; 3]> = vec![[1, 2, 3], [4, 8, 60]];
    assert!(!has_repeated_trio_by_sets(&store, &miss));
    let hit: Vec<[i64; 3]> = vec![[1, 2, 3], [15, 16, 42]];
    assert!(has_repeated_trio_by_sets(&store, &hit));
}

#[test]
fn overlap_count_is_the_shared_number_count() {
    let candidate = game(&[5, 10, 15, 20, 99, 98]);
    let h = draw(1, &[5, 10, 15, 20, 25, 30]);
    assert_eq!(overlap_count(&candidate, &h), 4);
    let disjoint = draw(2, &[31, 32, 33, 34, 35, 36]);
    assert_eq!(overlap_count(&candidate, &disjoint), 0);
}

#[test]
fn tolerance_exceeded_at_four_shared_numbers() {
    let store = vec![draw(1, &[5, 10, 15, 20, 25, 30])];
    let candidate = game(&[5, 10, 15, 20, 99, 98]);
    assert!(exceeds_tolerance(&store, &candidate, 4));
    let candidate3 = game(&[5, 10, 15, 21, 99, 98]);
    assert!(!exceeds_tolerance(&store, &candidate3, 4));
}

#[test]
fn first_conflicting_draw_is_reported() {
    let store = vec![
        draw(1, &[31, 32, 33, 34, 35, 36]),
        draw(2, &[1, 2, 3, 4, 50, 60]),
        draw(3, &[1, 2, 3, 4, 5, 6]),
    ];
    let candidate = game(&[1, 2, 3, 4, 21, 22]);
    assert_eq!(find_conflicting_draw(&store, &candidate, 4), Some(1));
    assert_eq!(find_conflicting_draw(&store, &candidate, 5), None);
}

#[test]
fn game_already_exists_is_positional() {
    let store = vec![draw(1, &[4, 8, 15, 16, 23, 42])];
    assert!(game_already_exists(&store, &game(&[4, 8, 15, 16, 23, 42])));
    assert!(!game_already_exists(&store, &game(&[42, 8, 15, 16, 23, 4])));
    assert!(!game_already_exists(&store, &game(&[1, 2, 3, 4, 5, 6])));
}

#[test]
fn validation_checks_arity_range_and_duplicates() {
    assert!(validar_jogo(&vec![1, 2, 3, 4, 5, 60]));
    assert!(!validar_jogo(&vec![1, 2, 3, 4, 5]));
    assert!(!validar_jogo(&vec![1, 2, 3, 4, 5, 61]));
    assert!(!validar_jogo(&vec![0, 2, 3, 4, 5, 6]));
    assert!(!validar_jogo(&vec![1, 2, 3, 4, 5, 1]));
}

#[test]
fn field_cleaning_strips_whitespace_and_quotes_in_order() {
    assert_eq!(limpar_campo(&b"  '42'  ".to_vec()), b"42".to_vec());
    assert_eq!(limpar_campo(&b"\t\"7\"\r\n".to_vec()), b"7".to_vec());
    // quotes shielded by inner whitespace survive: each pass only strips at
    // the very ends
    assert_eq!(limpar_campo(&b"'' \"03/05/2020\" ''".to_vec()), b"\"03/05/2020\"".to_vec());
    assert_eq!(limpar_campo(&b"'\"03/05/2020\"'".to_vec()), b"03/05/2020".to_vec());
    // single quotes shielded by double quotes survive: double quotes are
    // only stripped after single quotes
    assert_eq!(limpar_campo(&b"\"' 7 '\"".to_vec()), b"' 7 '".to_vec());
    assert_eq!(limpar_campo(&b"abc".to_vec()), b"abc".to_vec());
    assert_eq!(limpar_campo(&b"".to_vec()), b"".to_vec());
    assert_eq!(limpar_campo(&b"''''".to_vec()), b"".to_vec());
}

#[test]
fn sums_are_exact() {
    assert_eq!(soma_jogo(&vec![1, 2, 3, 4, 5, 6]), 21);
    assert_eq!(soma_jogo(&vec![55, 56, 57, 58, 59, 60]), 345);
    let empty: Vec<i64> = Vec::new();
    assert_eq!(soma_jogo(&empty), 0);
}
