//! Parse-error behaviour: the closed schema rejects unknown fields and
//! malformed values, each with its error kind.

use scantailor_project::project::parse_project;
use scantailor_project::wire::ParseErrorKind;

const VALID: &str = r#"<project layoutDirection="LTR" outputDirectory="/home/ramzi/src/bill-organizer/out" version="3"><directories><directory id="1" path="/home/ramzi/src/bill-organizer"/></directories><files><file dirId="1" id="2" name="in.jpg"/></files><images><image fileId="2" fileImage="0" id="3" subPages="1"><size height="4961" width="7016"/><dpi horizontal="600" vertical="600"/></image></images><pages><page id="4" imageId="3" selected="selected" subPage="single"/></pages><file-name-disambiguation><mapping file="2" label="0"/></file-name-disambiguation><filters><fix-orientation><image-settings><page id="4"><image-params blackOnWhite="1" bwThreshold="193"/></page></image-settings></fix-orientation><page-split defaultLayoutType="auto-detect"><image id="3" layoutType="single-uncut"><params mode="auto"><pages type="single-uncut"><outline><point x="0" y="0"/><point x="7016" y="0"/><point x="7016" y="4961"/><point x="0" y="4961"/><point x="0" y="0"/></outline></pages><dependencies><rotation degrees="0"/><size height="4961" width="7016"/><layoutType>single-uncut</layoutType></dependencies></params></image></page-split><deskew><page id="4"><params angle="0" mode="auto"><dependencies><rotation degrees="0"/><page-outline/></dependencies></params></page><image-settings/></deskew><select-content pageDetectionTolerance="0.1"><page id="4"><params contentDetectionMode="auto" fineTuneCorners="0" pageDetectionMode="disabled"><content-rect height="0" width="0" x="0" y="0"/><page-rect height="7015.733999999999" width="4960.62" x="0" y="0"/><content-size-mm height="-1" width="-1"/><dependencies><rotated-page-outline/><params contentDetectionMode="auto" fineTuneCorners="0" pageDetectionMode="disabled"/></dependencies></params></page></select-content><page-layout showMiddleRect="1"><page id="4"><params autoMargins="0"><hardMarginsMM bottom="5" left="10" right="10" top="5"/><pageRect height="0" width="0" x="0" y="0"/><contentRect height="0" width="0" x="0" y="0"/><contentSizeMM height="-1" width="-1"/><alignment hor="center" null="0" vert="center"/></params></page></page-layout><output><page id="4"><zones/><fill-zones/><params blackOnWhite="1" depthPerception="2" despeckleLevel="1"><picture-shape-options higherSearchSensitivity="0" pictureShape="free" sensitivity="100"/><dewarping-options mode="off" postDeskew="1" postDeskewAngle="0"/><dpi horizontal="600" vertical="600"/><color-params colorMode="bw"><color-or-grayscale fillMargins="1" fillOffcut="1" fillingColor="background" normalizeIlluminationColor="0"><posterization-options enabled="0" forceBlackAndWhite="1" level="4" normalizationEnabled="0"/></color-or-grayscale><bw binarizationMethod="otsu" morphologicalSmoothing="1" normalizeIlluminationBW="1" sauvolaCoef="0.34" savitzkyGolaySmoothing="1" thresholdAdj="0" windowSize="200" wolfCoef="0.3" wolfLowerBound="1" wolfUpperBound="254"><color-segmenter-options blueThresholdAdjustment="0" enabled="0" greenThresholdAdjustment="0" noiseReduction="7" redThresholdAdjustment="0"/></bw></color-params><splitting originalBackground="0" splitOutput="0" splittingMode="bw"/></params><processing-params autoZonesFound="0" blackOnWhiteSetManually="0"/></page></output></filters></project>"#;

#[test]
fn unknown_attributes_are_rejected() {
    let content = VALID.replace("<project layoutDirection", "<project unknown=\"1\" layoutDirection");
    assert!(parse_project(&content).is_err());
}

#[test]
fn truncated_documents_are_rejected() {
    let content = &VALID[..VALID.len() - 1];
    assert!(parse_project(content).is_err());
}

#[test]
fn trailing_garbage_is_rejected() {
    let content = format!("{} ", VALID);
    assert!(parse_project(&content).is_err());
}

#[test]
fn number_errors_carry_their_kind() {
    // the version attribute must fit the field's machine range
    let content = VALID.replace("version=\"3\"", "version=\"300\"");
    let err = parse_project(&content).unwrap_err();
    assert_eq!(err.kind, ParseErrorKind::BadNumber);
}

#[test]
fn pages_structure_errors_carry_their_kind() {
    // a two-pages declaration with no cutter present
    let fragment = r#"<pages type="two-pages"><outline><point x="0" y="0"/><point x="1" y="0"/><point x="1" y="1"/><point x="0" y="1"/><point x="0" y="0"/></outline></pages>"#;
    let err = scantailor_project::filters::page_split::parse_pages(fragment, 0).unwrap_err();
    assert_eq!(err.kind, ParseErrorKind::UnknownPagesStructure);
}

#[test]
fn curve_variant_errors_carry_their_kind() {
    // a curve pair where only one side has a spline
    let fragment = r#"<distortion-model><top-curve><xspline><point x="0" y="0"/></xspline><polyline>QUJD</polyline></top-curve><bottom-curve><polyline>QUJD</polyline></bottom-curve></distortion-model>"#;
    let err = scantailor_project::output::distortion_model::parse_distortion_model(fragment, 0)
        .unwrap_err();
    assert_eq!(err.kind, ParseErrorKind::UnknownCurveVariant);
}

#[test]
fn non_canonical_base64_is_rejected() {
    // a padded quad with nonzero trailing bits cannot come from the writer
    let mut doc = String::from(VALID);
    doc = doc.replace(
        "<params blackOnWhite=\"1\" depthPerception=\"2\" despeckleLevel=\"1\">",
        "<params blackOnWhite=\"1\" depthPerception=\"2\" despeckleLevel=\"1\"><distortion-model><top-curve><polyline>QQ==</polyline></top-curve><bottom-curve><polyline>QR==</polyline></bottom-curve></distortion-model>",
    );
    assert!(parse_project(&doc).is_err());
}

#[test]
fn base64_errors_carry_their_kind() {
    // nonzero bits under the padding cannot come from the writer
    let err = scantailor_project::base64::parse_b64("QR==", 0).unwrap_err();
    assert_eq!(err.kind, ParseErrorKind::BadBase64);
    // canonical text decodes and the decoder stops at the end
    let (bytes, used) = scantailor_project::base64::parse_b64("QUJD", 0).unwrap();
    assert_eq!(bytes, vec![65u8, 66, 67]);
    assert_eq!(used, 4);
}
