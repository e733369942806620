use rand::rngs::StdRng;
use rand::SeedableRng;

use mega_sena::game_generator::generate_mega_sena;
use mega_sena::game_generator::generate_mega_sena_com_universo;
use mega_sena::mega_sena::validar_jogo;
use mega_sena::migrations::migration_action;
use mega_sena::migrations::MigrationAction;
use mega_sena::orchestrator::filter_by_sum;
use mega_sena::orchestrator::run_generation;
use mega_sena::orchestrator::run_pipeline;
use mega_sena::sum_bounds::compute_sum_bounds;
use mega_sena::sum_bounds::sum_in_range;
use mega_sena::EngineError;
use mega_sena::HistoricoMegaSena;
use mega_sena::MegaSena;

fn draw(concurso: i64, numeros: &[i64]) -> HistoricoMegaSena {
    HistoricoMegaSena {
        concurso,
        data: String::from("2020-01-01"),
        numeros: numeros.to_vec(),
    }
}

fn game(numeros: &[i64]) -> MegaSena {
    MegaSena { id: 0, jogo: numeros.to_vec() }
}

#[test]
fn empty_store_yields_the_inverted_interval() {
    let store: Vec<HistoricoMegaSena> = Vec::new();
    let (soma_minima, soma_maxima) = compute_sum_bounds(&store);
    assert_eq!(soma_minima, 346);
    assert_eq!(soma_maxima, 0);
    // no candidate sum can fall inside an inverted interval
    assert!(!sum_in_range(&game(&[1, 2, 3, 4, 5, 6]), soma_minima, soma_maxima));
    assert!(!sum_in_range(&game(&[55, 56, 57, 58, 59, 60]), soma_minima, soma_maxima));
}

#[test]
fn bounds_track_the_observed_extremes() {
    let store = vec![
        draw(1, &[1, 2, 3, 4, 5, 6]),          // sum 21
        draw(2, &[10, 14, 15, 16, 20, 25]),    // sum 100
        draw(3, &[7, 8, 9, 10, 11, 12]),       // sum 57
    ];
    assert_eq!(compute_sum_bounds(&store), (21, 100));
}

#[test]
fn sum_range_is_exclusive_on_both_ends() {
    let store = vec![
        draw(1, &[1, 2, 3, 4, 5, 6]),       // sum 21
        draw(2, &[10, 14, 15, 16, 20, 25]), // sum 100
    ];
    let (soma_minima, soma_maxima) = compute_sum_bounds(&store);
    assert_eq!((soma_minima, soma_maxima), (21, 100));
    // exactly the minimum: rejected
    assert!(!sum_in_range(&game(&[1, 2, 3, 4, 5, 6]), soma_minima, soma_maxima));
    // exactly the maximum: rejected (another game summing to 100)
    assert!(!sum_in_range(&game(&[10, 15, 16, 18, 20, 21]), soma_minima, soma_maxima));
    // strictly inside: accepted (sum 60)
    assert!(sum_in_range(&game(&[5, 6, 7, 8, 14, 20]), soma_minima, soma_maxima));
    // strictly outside: rejected (sum 20 and sum 101)
    assert!(!sum_in_range(&game(&[1, 2, 3, 4, 5, 5]), soma_minima, soma_maxima));
    assert!(!sum_in_range(&game(&[10, 15, 16, 18, 20, 22]), soma_minima, soma_maxima));
}

#[test]
fn filter_by_sum_keeps_qualifying_games_in_order() {
    let jogos = vec![
        game(&[1, 2, 3, 4, 5, 6]),      // 21: out (equal to the minimum)
        game(&[5, 6, 7, 8, 14, 20]),    // 60: in
        game(&[1, 2, 3, 4, 5, 7]),      // 22: in
        game(&[10, 15, 16, 18, 20, 21]),// 100: out
    ];
    let kept = filter_by_sum(jogos, 21, 100);
    assert_eq!(kept, vec![game(&[5, 6, 7, 8, 14, 20]), game(&[1, 2, 3, 4, 5, 7])]);
}

#[test]
fn generation_fails_only_on_a_too_small_universe() {
    let mut rng = StdRng::seed_from_u64(1);
    assert_eq!(
        generate_mega_sena_com_universo(&mut rng, 5),
        Err(EngineError::GenerationError)
    );
    let jogo = generate_mega_sena_com_universo(&mut rng, 6).unwrap();
    let mut numeros = jogo.jogo.clone();
    numeros.sort();
    assert_eq!(numeros, vec![1, 2, 3, 4, 5, 6]);
}

#[test]
fn generated_games_are_always_valid() {
    let mut rng = StdRng::seed_from_u64(7);
    for _ in 0..200 {
        let jogo = generate_mega_sena(&mut rng).unwrap();
        assert!(validar_jogo(&jogo.jogo));
    }
}

#[test]
fn generation_meets_the_quota_and_rejections_carry_reasons() {
    let store = vec![
        draw(1, &[1, 2, 3, 4, 5, 6]),
        draw(2, &[55, 56, 57, 58, 59, 60]),
    ];
    let mut rng = StdRng::seed_from_u64(3);
    let (aceitos, rejeitados) = run_generation(&store, 10, 4, 100_000, &mut rng).unwrap();
    assert_eq!(aceitos.len(), 10);
    for jogo in &aceitos {
        assert!(validar_jogo(&jogo.jogo));
        for h in &store {
            let shared = jogo.jogo.iter().filter(|n| h.numeros.contains(n)).count();
            assert!(shared < 4);
        }
    }
    for r in &rejeitados {
        assert!(r.indice_concurso < store.len());
        let h = &store[r.indice_concurso];
        let shared = r.jogo.jogo.iter().filter(|n| h.numeros.contains(n)).count();
        assert!(shared >= 4);
    }
}

#[test]
fn pipeline_is_deterministic_for_a_fixed_seed() {
    let store = vec![
        draw(1, &[1, 2, 3, 4, 5, 6]),       // sum 21
        draw(2, &[55, 56, 57, 58, 59, 60]), // sum 345
        draw(3, &[10, 20, 30, 40, 50, 60]), // sum 210
    ];
    let mut rng1 = StdRng::seed_from_u64(2024);
    let out1 = run_pipeline(&store, 10, 4, 100_000, &mut rng1).unwrap();
    let mut rng2 = StdRng::seed_from_u64(2024);
    let out2 = run_pipeline(&store, 10, 4, 100_000, &mut rng2).unwrap();
    assert_eq!(out1.jogaveis, out2.jogaveis);
    assert_eq!(out1.rejeitados, out2.rejeitados);
    assert_eq!(out1.soma_minima, out2.soma_minima);
    assert_eq!(out1.soma_maxima, out2.soma_maxima);
    // the bounds come from the store alone
    assert_eq!((out1.soma_minima, out1.soma_maxima), (21, 345));
    // the sum filter can only shrink the accepted list
    assert!(out1.jogaveis.len() <= 10);
    for jogo in &out1.jogaveis {
        assert!(validar_jogo(&jogo.jogo));
        let soma: i64 = jogo.jogo.iter().sum();
        assert!(soma > 21 && soma < 345);
    }
    // a different seed produces a different playable list
    let mut rng3 = StdRng::seed_from_u64(2025);
    let out3 = run_pipeline(&store, 10, 4, 100_000, &mut rng3).unwrap();
    assert_ne!(out1.jogaveis, out3.jogaveis);
}

#[test]
fn migration_decision_follows_the_recorded_checksum() {
    let atual: Vec<u8> = vec![0xAB, 0xCD, 0x01];
    assert_eq!(migration_action(&None, &atual), MigrationAction::Apply);
    assert_eq!(
        migration_action(&Some(vec![0xAB, 0xCD, 0x01]), &atual),
        MigrationAction::Skip
    );
    assert_eq!(
        migration_action(&Some(vec![0xAB, 0xCD, 0x02]), &atual),
        MigrationAction::ChecksumMismatch
    );
}
