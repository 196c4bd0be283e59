use slope::service_calculus::{
    admission_certificate_root, service_curve_root, AdmissionCertificate, AdmissionFault,
    CalibrationFault, ResidualCalibrator, ServiceController, ServiceCurve,
};

fn curve() -> ServiceCurve {
    ServiceCurve {
        minimum_completions_per_window: 2,
        maximum_admissions_per_window: 4,
        window_ticks: 100,
        latency_ticks: 20,
        maximum_backlog: 8,
    }
}

#[test]
fn deterministic_delay_is_min_plus_horizontal_deviation() {
    assert_eq!(curve().deterministic_delay(0), Some(120));
    assert_eq!(curve().deterministic_delay(1), Some(120));
    assert_eq!(curve().deterministic_delay(2), Some(220));
}

#[test]
fn conformal_guard_tracks_positive_underprediction() {
    let mut calibrator = ResidualCalibrator::<8>::kernel_default(1, 1_000, 7).unwrap();
    for residual in [1, 2, 3, 4, 5, 6, 7, 100] {
        calibrator.push(residual).unwrap();
    }
    assert!(calibrator.guard().unwrap() >= 100);
    assert!(calibrator.verify_root());
}

#[test]
fn unsafe_deadline_is_rejected() {
    let mut controller = ServiceController::<8>::new(curve(), 1_000, 7).unwrap();
    assert_eq!(
        controller.admit_job(1_000, 1_120, 0),
        Err(AdmissionFault::DeadlineUnsafe),
    );
}

#[test]
fn failed_submission_rolls_back_latest_reservation() {
    let mut controller = ServiceController::<8>::new(curve(), 1_000, 7).unwrap();
    let certificate = controller.admit_job(1_000, 1_500, 0).unwrap();
    controller.rollback(certificate).unwrap();
    assert_eq!(controller.accepted(), 0);
    assert_eq!(controller.virtual_backlog_q16(), 0);
}

#[test]
fn completion_updates_uncertainty_and_drains_virtual_backlog() {
    let mut controller = ServiceController::<8>::new(curve(), 1_000, 7).unwrap();
    let certificate = controller.admit_job(1_000, 2_000, 0).unwrap();
    let before = controller.uncertainty_guard_ticks();
    let after = controller.observe_completion(certificate, 1_400).unwrap();
    assert!(after >= before);
    assert_eq!(controller.observed(), 1);
}

#[test]
fn invalid_parameters_are_refused() {
    assert_eq!(
        ResidualCalibrator::<0>::kernel_default(1, 10, 7).err(),
        Some(CalibrationFault::ZeroCapacity)
    );
    assert_eq!(
        ResidualCalibrator::<4>::new(16, 16, 1, 10, 7).err(),
        Some(CalibrationFault::InvalidCoverage)
    );
    assert_eq!(
        ResidualCalibrator::<4>::new(1, 2, 1, 10, 0).err(),
        Some(CalibrationFault::InvalidCoverage)
    );
    let broken = ServiceCurve { window_ticks: 0, ..curve() };
    assert!(!broken.valid());
    assert_eq!(broken.deterministic_delay(0), None);
    assert_eq!(curve().deterministic_delay(8), None);
    assert_eq!(
        ServiceController::<8>::new(broken, 0, 7).err(),
        Some(AdmissionFault::InvalidCurve)
    );
    assert_eq!(
        ServiceController::<8>::new(curve(), 0, 0).err(),
        Some(AdmissionFault::InvalidCurve)
    );
}

#[test]
fn guard_is_the_conformal_rank_plus_slack() {
    let mut calibrator = ResidualCalibrator::<4>::new(1, 2, 5, 1_000, 3).unwrap();
    assert_eq!(calibrator.guard(), Ok(5));
    assert_eq!(calibrator.push(40), Ok(45));
    // rank ceil((n + 1) / 2) of the sorted window, plus the slack
    assert_eq!(calibrator.push(10), Ok(45));
    assert_eq!(calibrator.push(30), Ok(35));
    assert_eq!(calibrator.push(5_000), Ok(45));
    assert_eq!(calibrator.retained(), 4);
    assert_eq!(calibrator.samples(), 4);
    // the oldest residual (40) is overwritten
    assert_eq!(calibrator.push(20), Ok(35));
    assert_eq!(calibrator.retained(), 4);
    assert!(calibrator.verify_root());
    assert_ne!(calibrator.root(), 0);
}

#[test]
fn arrival_envelope_and_backlog_bound_admission() {
    let mut controller = ServiceController::<8>::new(curve(), 1_000, 7).unwrap();
    assert_eq!(
        controller.admit_job(1_000, 1_000_000, 8),
        Err(AdmissionFault::BacklogSaturated)
    );
    for _ in 0..4 {
        controller.admit_job(1_000, 1_000_000, 0).unwrap();
    }
    assert_eq!(
        controller.admit_job(1_000, 1_000_000, 0),
        Err(AdmissionFault::ArrivalEnvelopeExceeded)
    );
    assert_eq!(controller.rejected(), 2);
    assert_eq!(controller.accepted(), 4);
    assert_eq!(controller.admit_job(999, 1_000_000, 0), Err(AdmissionFault::TimeRegression));
    let next_window = controller.admit_job(1_100, 1_000_000, 0).unwrap();
    assert_eq!(next_window.window_start, 1_100);
    assert_eq!(next_window.admitted_before, 0);
}

#[test]
fn certificates_are_bound_to_the_controller() {
    let mut controller = ServiceController::<8>::new(curve(), 1_000, 7).unwrap();
    let certificate = controller.admit_job(1_000, 1_500, 1).unwrap();
    assert!(certificate.valid());
    assert!(controller.verify_certificate(certificate));
    assert_eq!(certificate.delay_bound_ticks, 121);
    assert_eq!(certificate.deadline_slack_ticks, 1_500 - 1_000 - 121);
    assert_eq!(certificate.curve_root, service_curve_root(7, curve()));
    assert_eq!(controller.curve_root(), service_curve_root(7, curve()));
    assert_eq!(controller.curve(), curve());
    assert_eq!(
        certificate.certificate_root,
        admission_certificate_root(7, AdmissionCertificate { certificate_root: 0, ..certificate })
    );
    let forged = AdmissionCertificate { delay_bound_ticks: 1, ..certificate };
    assert!(!controller.verify_certificate(forged));
    assert_eq!(controller.rollback(forged), Err(AdmissionFault::StaleReservation));
    assert_eq!(
        controller.observe_completion(forged, 1_100),
        Err(AdmissionFault::CorruptObservation)
    );
    assert!(!AdmissionCertificate::empty().valid());
}

#[test]
fn late_completion_adds_virtual_backlog_pressure() {
    let mut controller = ServiceController::<8>::new(curve(), 1_000, 7).unwrap();
    let certificate = controller.admit_job(1_000, 5_000, 0).unwrap();
    assert_eq!(controller.virtual_backlog_q16(), 65_536);
    controller.observe_completion(certificate, 1_000 + certificate.delay_bound_ticks + 50).unwrap();
    assert_eq!(controller.virtual_backlog_q16(), 32_768 );
}
