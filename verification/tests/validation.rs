//! Validation rule tests: version gate, ranges, and outline closure on
//! whole documents, plus exact decimal comparisons on handmade values.

use scantailor_project::decimal::Decimal;
use scantailor_project::project::parse_project;
use scantailor_project::validate::{validate_project, Loc, ViolationKind};

const VALID: &str = r#"<project layoutDirection="LTR" outputDirectory="/home/ramzi/src/bill-organizer/out" version="3"><directories><directory id="1" path="/home/ramzi/src/bill-organizer"/></directories><files><file dirId="1" id="2" name="in.jpg"/></files><images><image fileId="2" fileImage="0" id="3" subPages="1"><size height="4961" width="7016"/><dpi horizontal="600" vertical="600"/></image></images><pages><page id="4" imageId="3" selected="selected" subPage="single"/></pages><file-name-disambiguation><mapping file="2" label="0"/></file-name-disambiguation><filters><fix-orientation><image-settings><page id="4"><image-params blackOnWhite="1" bwThreshold="193"/></page></image-settings></fix-orientation><page-split defaultLayoutType="auto-detect"><image id="3" layoutType="single-uncut"><params mode="auto"><pages type="single-uncut"><outline><point x="0" y="0"/><point x="7016" y="0"/><point x="7016" y="4961"/><point x="0" y="4961"/><point x="0" y="0"/></outline></pages><dependencies><rotation degrees="0"/><size height="4961" width="7016"/><layoutType>single-uncut</layoutType></dependencies></params></image></page-split><deskew><page id="4"><params angle="0" mode="auto"><dependencies><rotation degrees="0"/><page-outline/></dependencies></params></page><image-settings/></deskew><select-content pageDetectionTolerance="0.1"><page id="4"><params contentDetectionMode="auto" fineTuneCorners="0" pageDetectionMode="disabled"><content-rect height="0" width="0" x="0" y="0"/><page-rect height="7015.733999999999" width="4960.62" x="0" y="0"/><content-size-mm height="-1" width="-1"/><dependencies><rotated-page-outline/><params contentDetectionMode="auto" fineTuneCorners="0" pageDetectionMode="disabled"/></dependencies></params></page></select-content><page-layout showMiddleRect="1"><page id="4"><params autoMargins="0"><hardMarginsMM bottom="5" left="10" right="10" top="5"/><pageRect height="0" width="0" x="0" y="0"/><contentRect height="0" width="0" x="0" y="0"/><contentSizeMM height="-1" width="-1"/><alignment hor="center" null="0" vert="center"/></params></page></page-layout><output><page id="4"><zones/><fill-zones/><params blackOnWhite="1" depthPerception="2" despeckleLevel="1"><picture-shape-options higherSearchSensitivity="0" pictureShape="free" sensitivity="100"/><dewarping-options mode="off" postDeskew="1" postDeskewAngle="0"/><dpi horizontal="600" vertical="600"/><color-params colorMode="bw"><color-or-grayscale fillMargins="1" fillOffcut="1" fillingColor="background" normalizeIlluminationColor="0"><posterization-options enabled="0" forceBlackAndWhite="1" level="4" normalizationEnabled="0"/></color-or-grayscale><bw binarizationMethod="otsu" morphologicalSmoothing="1" normalizeIlluminationBW="1" sauvolaCoef="0.34" savitzkyGolaySmoothing="1" thresholdAdj="0" windowSize="200" wolfCoef="0.3" wolfLowerBound="1" wolfUpperBound="254"><color-segmenter-options blueThresholdAdjustment="0" enabled="0" greenThresholdAdjustment="0" noiseReduction="7" redThresholdAdjustment="0"/></bw></color-params><splitting originalBackground="0" splitOutput="0" splittingMode="bw"/></params><processing-params autoZonesFound="0" blackOnWhiteSetManually="0"/></page></output></filters></project>"#;

#[test]
fn version_gate_rejects_other_versions() {
    for bad in ["2", "4"] {
        let content = VALID.replace("version=\"3\"", &format!("version=\"{}\"", bad));
        let project = parse_project(&content).unwrap();
        let report = validate_project(&project);
        assert_eq!(report.len(), 1);
        assert!(matches!(report[0].kind, ViolationKind::UnsupportedVersion));
        assert!(matches!(report[0].loc, Loc::Project));
    }
    let project = parse_project(VALID).unwrap();
    assert!(validate_project(&project).is_empty());
}

#[test]
fn despeckle_level_must_lie_between_one_and_three() {
    let content = VALID.replace("despeckleLevel=\"1\"", "despeckleLevel=\"4\"");
    let project = parse_project(&content).unwrap();
    let report = validate_project(&project);
    assert!(report.iter().any(|v| matches!(v.kind, ViolationKind::DespeckleLevelOutOfRange)));

    let content = VALID.replace("despeckleLevel=\"1\"", "despeckleLevel=\"2\"");
    let project = parse_project(&content).unwrap();
    assert!(validate_project(&project).is_empty());
}

#[test]
fn deskew_angle_range_is_inclusive() {
    let content = VALID.replace("angle=\"0\"", "angle=\"45\"");
    let project = parse_project(&content).unwrap();
    assert!(validate_project(&project).is_empty());

    let content = VALID.replace("angle=\"0\"", "angle=\"45.01\"");
    let project = parse_project(&content).unwrap();
    let report = validate_project(&project);
    assert!(report.iter().any(|v| matches!(v.kind, ViolationKind::AngleOutOfRange)));

    let content = VALID.replace("angle=\"0\"", "angle=\"-45.5\"");
    let project = parse_project(&content).unwrap();
    let report = validate_project(&project);
    assert!(report.iter().any(|v| matches!(v.kind, ViolationKind::AngleOutOfRange)));
}

#[test]
fn sauvola_coefficient_range_is_checked_in_output_params_snapshot() {
    // the range applies inside an output-params settings snapshot; this
    // document has none, so the live params carry no sauvola rule and the
    // report stays empty even for an out-of-range value there
    let content = VALID.replace("sauvolaCoef=\"0.34\"", "sauvolaCoef=\"10.5\"");
    let project = parse_project(&content).unwrap();
    assert!(validate_project(&project).is_empty());
}

#[test]
fn decimal_range_comparison_is_exact() {
    // handmade decimal values compare exactly
    let two = Decimal { neg: false, int_digits: vec![2], frac_digits: None };
    let two_and_a_bit = Decimal { neg: false, int_digits: vec![2], frac_digits: Some(vec![0, 0, 1]) };
    assert!(scantailor_project::decimal::in_centi_range(&two, 100, 300));
    assert!(scantailor_project::decimal::in_centi_range(&two_and_a_bit, 100, 300));
    assert!(!scantailor_project::decimal::in_centi_range(&two_and_a_bit, 100, 200));
}

#[test]
fn decimal_equality_ignores_textual_form() {
    let a = Decimal { neg: false, int_digits: vec![0], frac_digits: Some(vec![5]) };
    let b = Decimal { neg: false, int_digits: vec![0], frac_digits: Some(vec![5, 0, 0]) };
    let c = Decimal { neg: true, int_digits: vec![0], frac_digits: None };
    let zero = Decimal { neg: false, int_digits: vec![0], frac_digits: None };
    assert!(scantailor_project::decimal::same_value(&a, &b));
    assert!(!scantailor_project::decimal::same_value(&a, &zero));
    assert!(scantailor_project::decimal::same_value(&c, &zero));
}

#[test]
fn outline_closure_is_checked_by_value_not_by_text() {
    // 4961 and 4961.0 denote the same point, so the outline still closes
    let content = VALID.replace(
        "<point x=\"0\" y=\"4961\"/><point x=\"0\" y=\"0\"/></outline>",
        "<point x=\"0\" y=\"4961\"/><point x=\"0.0\" y=\"0\"/></outline>",
    );
    let project = parse_project(&content).unwrap();
    assert!(validate_project(&project).is_empty());
}
