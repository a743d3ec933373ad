use playfusion::app::audio::PlaybackEvent;
use playfusion::playback::recovery::{decide_recovery, RecoveryAction, RecoveryBudget};

#[test]
fn transport_failures_trigger_refresh_and_resume() {
    for msg in [
        "leer stream: conexión interrumpida",
        "descargar bloque 4096: 403 Forbidden",
        "stream interrumpido",
        "el stream respondió 502",
    ] {
        assert_eq!(
            decide_recovery(&PlaybackEvent::Error(msg.to_string())),
            RecoveryAction::RefreshAndResume,
            "{msg} es transporte"
        );
    }
}

#[test]
fn decode_device_and_cancellations_are_report_only() {
    for msg in [
        "decodificar stream: cabecera inválida",
        "dispositivo de audio desconectado",
        "buffer de audio del dispositivo agotado (underrun)",
        "reproducción cancelada",
        "reproducción reemplazada por otra orden",
    ] {
        assert_eq!(
            decide_recovery(&PlaybackEvent::Error(msg.to_string())),
            RecoveryAction::Report,
            "{msg} no se arregla re-resolviendo"
        );
    }
}

#[test]
fn cut_keeps_its_current_semantics() {
    assert_eq!(
        decide_recovery(&PlaybackEvent::Cut(
            "el servidor restringe este stream a partir del byte 1048576".to_string()
        )),
        RecoveryAction::Report,
        "una restricción del servidor no se arregla re-lanzando la misma URL"
    );
}

#[test]
fn benign_events_never_recover() {
    for ev in [
        PlaybackEvent::Buffering,
        PlaybackEvent::Playing,
        PlaybackEvent::Paused,
        PlaybackEvent::Finished,
        PlaybackEvent::Stopped,
    ] {
        assert_eq!(decide_recovery(&ev), RecoveryAction::Report);
    }
}

#[test]
fn budget_allows_exactly_one_refresh_per_track() {
    let mut budget = RecoveryBudget::default();
    budget.arm("song-a");
    assert!(budget.remaining("song-a"));
    assert!(budget.try_consume("song-a"), "primer intento concedido");
    assert!(!budget.try_consume("song-a"), "segundo intento denegado");
    assert!(!budget.try_consume("song-b"), "clave ajena denegada");
}

#[test]
fn arming_a_new_track_rearms_the_budget() {
    let mut budget = RecoveryBudget::default();
    budget.arm("a");
    assert!(budget.try_consume("a"));
    budget.arm("b");
    assert!(budget.try_consume("b"), "track nuevo = presupuesto nuevo");
    assert!(!budget.try_consume("a"), "el viejo sigue gastado");
}

#[test]
fn matching_is_ascii_case_insensitive() {
    assert_eq!(
        decide_recovery(&PlaybackEvent::Error("Reproducción CANCELADA".to_string())),
        RecoveryAction::Report
    );
    assert_eq!(
        decide_recovery(&PlaybackEvent::Error("DISPOSITIVO perdido".to_string())),
        RecoveryAction::Report
    );
}

#[test]
fn unarmed_budget_grants_nothing() {
    let mut budget = RecoveryBudget::default();
    assert!(!budget.remaining("a"));
    assert!(!budget.try_consume("a"));
}
