//! Whole-document tests: parsing, validating, serializing, and byte-exact
//! round trips of complete project files.

use scantailor_project::project::{parse_project, reserialize, serialize_project};
use scantailor_project::validate::validate_project;

const ORIGINAL_CONTENT: &str = r#"<project layoutDirection="LTR" outputDirectory="/home/ramzi/src/bill-organizer/out" version="3"><directories><directory id="1" path="/home/ramzi/src/bill-organizer"/></directories><files><file dirId="1" id="2" name="in.jpg"/></files><images><image fileId="2" fileImage="0" id="3" subPages="1"><size height="4961" width="7016"/><dpi horizontal="600" vertical="600"/></image></images><pages><page id="4" imageId="3" selected="selected" subPage="single"/></pages><file-name-disambiguation><mapping file="2" label="0"/></file-name-disambiguation><filters><fix-orientation><image-settings><page id="4"><image-params blackOnWhite="1" bwThreshold="193"/></page></image-settings></fix-orientation><page-split defaultLayoutType="auto-detect"><image id="3" layoutType="single-uncut"><params mode="auto"><pages type="single-uncut"><outline><point x="0" y="0"/><point x="7016" y="0"/><point x="7016" y="4961"/><point x="0" y="4961"/><point x="0" y="0"/></outline></pages><dependencies><rotation degrees="0"/><size height="4961" width="7016"/><layoutType>single-uncut</layoutType></dependencies></params></image></page-split><deskew><page id="4"><params angle="0" mode="auto"><dependencies><rotation degrees="0"/><page-outline/></dependencies></params></page><image-settings/></deskew><select-content pageDetectionTolerance="0.1"><page id="4"><params contentDetectionMode="auto" fineTuneCorners="0" pageDetectionMode="disabled"><content-rect height="0" width="0" x="0" y="0"/><page-rect height="7015.733999999999" width="4960.62" x="0" y="0"/><content-size-mm height="-1" width="-1"/><dependencies><rotated-page-outline/><params contentDetectionMode="auto" fineTuneCorners="0" pageDetectionMode="disabled"/></dependencies></params></page></select-content><page-layout showMiddleRect="1"><page id="4"><params autoMargins="0"><hardMarginsMM bottom="5" left="10" right="10" top="5"/><pageRect height="0" width="0" x="0" y="0"/><contentRect height="0" width="0" x="0" y="0"/><contentSizeMM height="-1" width="-1"/><alignment hor="center" null="0" vert="center"/></params></page></page-layout><output><page id="4"><zones/><fill-zones/><params blackOnWhite="1" depthPerception="2" despeckleLevel="1"><picture-shape-options higherSearchSensitivity="0" pictureShape="free" sensitivity="100"/><dewarping-options mode="off" postDeskew="1" postDeskewAngle="0"/><dpi horizontal="600" vertical="600"/><color-params colorMode="bw"><color-or-grayscale fillMargins="1" fillOffcut="1" fillingColor="background" normalizeIlluminationColor="0"><posterization-options enabled="0" forceBlackAndWhite="1" level="4" normalizationEnabled="0"/></color-or-grayscale><bw binarizationMethod="otsu" morphologicalSmoothing="1" normalizeIlluminationBW="1" sauvolaCoef="0.34" savitzkyGolaySmoothing="1" thresholdAdj="0" windowSize="200" wolfCoef="0.3" wolfLowerBound="1" wolfUpperBound="254"><color-segmenter-options blueThresholdAdjustment="0" enabled="0" greenThresholdAdjustment="0" noiseReduction="7" redThresholdAdjustment="0"/></bw></color-params><splitting originalBackground="0" splitOutput="0" splittingMode="bw"/></params><processing-params autoZonesFound="0" blackOnWhiteSetManually="0"/></page></output></filters></project>"#;

const WITH_TWO_PAGES: &str = r#"<project layoutDirection="LTR" outputDirectory="/home/ramzi/src/bill-organizer/out" version="3"><directories><directory id="1" path="/home/ramzi/src/bill-organizer"/></directories><files><file dirId="1" id="2" name="in.jpg"/></files><images><image fileId="2" fileImage="0" id="3" subPages="2"><size height="4961" width="7016"/><dpi horizontal="600" vertical="600"/></image></images><pages><page id="4" imageId="3" selected="selected" subPage="left"/><page id="5" imageId="3" subPage="right"/></pages><file-name-disambiguation><mapping file="2" label="0"/></file-name-disambiguation><filters><fix-orientation><image-settings/></fix-orientation><page-split defaultLayoutType="auto-detect"><image id="3" layoutType="two-pages"><params mode="auto"><pages type="two-pages"><outline><point x="0" y="0"/><point x="7016" y="0"/><point x="7016" y="4961"/><point x="0" y="4961"/><point x="0" y="0"/></outline><cutter1><p1 x="2817.82175895945" y="4962"/><p2 x="2861.124476937195" y="0"/></cutter1></pages><dependencies><rotation degrees="0"/><size height="4961" width="7016"/><layoutType>two-pages</layoutType></dependencies></params></image></page-split><deskew><image-settings/></deskew><select-content pageDetectionTolerance="0.1"/><page-layout showMiddleRect="1"/><output><page id="4"><zones/><fill-zones/><params blackOnWhite="1" depthPerception="2" despeckleLevel="1"><picture-shape-options higherSearchSensitivity="0" pictureShape="free" sensitivity="100"/><dewarping-options mode="off" postDeskew="1" postDeskewAngle="0"/><dpi horizontal="600" vertical="600"/><color-params colorMode="bw"><color-or-grayscale fillMargins="1" fillOffcut="1" fillingColor="background" normalizeIlluminationColor="0"><posterization-options enabled="0" forceBlackAndWhite="1" level="4" normalizationEnabled="0"/></color-or-grayscale><bw binarizationMethod="otsu" morphologicalSmoothing="1" normalizeIlluminationBW="1" sauvolaCoef="0.34" savitzkyGolaySmoothing="1" thresholdAdj="0" windowSize="200" wolfCoef="0.3" wolfLowerBound="1" wolfUpperBound="254"><color-segmenter-options blueThresholdAdjustment="0" enabled="0" greenThresholdAdjustment="0" noiseReduction="7" redThresholdAdjustment="0"/></bw></color-params><splitting originalBackground="0" splitOutput="0" splittingMode="bw"/></params><processing-params autoZonesFound="0" blackOnWhiteSetManually="0"/></page><page id="5"><zones/><fill-zones/><params blackOnWhite="1" depthPerception="2" despeckleLevel="1"><picture-shape-options higherSearchSensitivity="0" pictureShape="free" sensitivity="100"/><dewarping-options mode="off" postDeskew="1" postDeskewAngle="0"/><dpi horizontal="600" vertical="600"/><color-params colorMode="bw"><color-or-grayscale fillMargins="1" fillOffcut="1" fillingColor="background" normalizeIlluminationColor="0"><posterization-options enabled="0" forceBlackAndWhite="1" level="4" normalizationEnabled="0"/></color-or-grayscale><bw binarizationMethod="otsu" morphologicalSmoothing="1" normalizeIlluminationBW="1" sauvolaCoef="0.34" savitzkyGolaySmoothing="1" thresholdAdj="0" windowSize="200" wolfCoef="0.3" wolfLowerBound="1" wolfUpperBound="254"><color-segmenter-options blueThresholdAdjustment="0" enabled="0" greenThresholdAdjustment="0" noiseReduction="7" redThresholdAdjustment="0"/></bw></color-params><splitting originalBackground="0" splitOutput="0" splittingMode="bw"/></params><processing-params autoZonesFound="0" blackOnWhiteSetManually="0"/></page></output></filters></project>"#;

const WITH_ZONES_AND_OUTPUT: &str = r#"<project layoutDirection="LTR" outputDirectory="/home/ramzi/src/bill-organizer/out" version="3"><directories><directory id="1" path="/home/ramzi/src/bill-organizer"/></directories><files><file dirId="1" id="2" name="in.jpg"/></files><images><image fileId="2" fileImage="0" id="3" subPages="1"><size height="4961" width="7016"/><dpi horizontal="600" vertical="600"/></image></images><pages><page id="4" imageId="3" selected="selected" subPage="single"/></pages><file-name-disambiguation><mapping file="2" label="0"/></file-name-disambiguation><filters><fix-orientation><image-settings><page id="4"><image-params blackOnWhite="1" bwThreshold="193"/></page></image-settings></fix-orientation><page-split defaultLayoutType="auto-detect"><image id="3" layoutType="single-uncut"><params mode="auto"><pages type="single-uncut"><outline><point x="0" y="0"/><point x="7016" y="0"/><point x="7016" y="4961"/><point x="0" y="4961"/><point x="0" y="0"/></outline></pages><dependencies><rotation degrees="0"/><size height="4961" width="7016"/><layoutType>single-uncut</layoutType></dependencies></params></image></page-split><deskew><page id="4"><params angle="0.125" mode="auto"><dependencies><rotation degrees="0"/><page-outline><point x="0" y="0"/><point x="7016" y="0"/><point x="7016" y="4961"/><point x="0" y="4961"/><point x="0" y="0"/></page-outline></dependencies></params></page><image-settings><page id="4"><image-params blackOnWhite="1" bwThreshold="193"/></page></image-settings></deskew><select-content pageDetectionTolerance="0.1"><page id="4"><params contentDetectionMode="auto" fineTuneCorners="0" pageDetectionMode="disabled"><content-rect height="3384" width="2260" x="344" y="388"/><page-rect height="4976.294719097549" width="7026.806517602445" x="0" y="0"/><content-size-mm height="143.256286512573" width="95.6735246803827"/><dependencies><rotated-page-outline><point x="10.82321443814471" y="0"/><point x="7026.806517602445" y="15.30652539770678"/><point x="7015.9833031643" y="4976.294719097549"/><point x="0" y="4960.988193699843"/><point x="10.82321443814471" y="0"/></rotated-page-outline><params contentDetectionMode="auto" fineTuneCorners="0" pageDetectionMode="disabled"/></dependencies></params></page></select-content><page-layout showMiddleRect="1"><page id="4"><params autoMargins="0"><hardMarginsMM bottom="5" left="10" right="10" top="5"/><pageRect height="4976.294719097549" width="7026.806517602445" x="0" y="0"/><contentRect height="3384" width="2260" x="344" y="388"/><contentSizeMM height="143.256286512573" width="95.6735246803827"/><alignment hor="center" null="0" vert="center"/></params></page></page-layout><output><page id="4"><zones><zone><spline><point x="1296.024550606199" y="387.1734366977415"/><point x="1303.285114534872" y="3715.165516647968"/><point x="1997.283462937954" y="3713.651444722938"/><point x="1990.022899009281" y="385.6593647727118"/><point x="1296.024550606199" y="387.1734366977415"/></spline><properties><property type="ZoneCategoryProperty" zoneCategory="auto"/><property layer="painter2" type="PictureZoneProperty"/></properties></zone><zone><spline><point x="666.8229425617324" y="1670.549194780407"/><point x="668.7340765766114" y="2546.547110055767"/><point x="946.7334149859151" y="2545.940608621822"/><point x="944.8222809710362" y="1669.942693346462"/><point x="666.8229425617324" y="1670.549194780407"/></spline><properties><property type="ZoneCategoryProperty" zoneCategory="auto"/><property layer="painter2" type="PictureZoneProperty"/></properties></zone></zones><fill-zones/><params blackOnWhite="1" depthPerception="2" despeckleLevel="1"><picture-shape-options higherSearchSensitivity="1" pictureShape="rectangular" sensitivity="100"/><dewarping-options mode="off" postDeskew="1" postDeskewAngle="0"/><dpi horizontal="600" vertical="600"/><color-params colorMode="mixed"><color-or-grayscale fillMargins="1" fillOffcut="1" fillingColor="background" normalizeIlluminationColor="0"><posterization-options enabled="0" forceBlackAndWhite="1" level="4" normalizationEnabled="0"/></color-or-grayscale><bw binarizationMethod="otsu" morphologicalSmoothing="1" normalizeIlluminationBW="1" sauvolaCoef="0.34" savitzkyGolaySmoothing="1" thresholdAdj="0" windowSize="200" wolfCoef="0.3" wolfLowerBound="1" wolfUpperBound="254"><color-segmenter-options blueThresholdAdjustment="0" enabled="0" greenThresholdAdjustment="0" noiseReduction="7" redThresholdAdjustment="0"/></bw></color-params><splitting originalBackground="0" splitOutput="0" splittingMode="bw"/></params><processing-params autoZonesFound="1" blackOnWhiteSetManually="0"/><output-params><image blackOnWhite="1" depthPerception="2" despeckleLevel="1"><size height="3620" width="2732"/><content-rect height="3384" width="2260" x="236" y="118"/><crop-area><point x="-97.17678556185528" y="-270"/><point x="6918.806517602445" y="-254.6934746022932"/><point x="6907.9833031643" y="4706.294719097549"/><point x="-108" y="4690.988193699843"/><point x="-97.17678556185528" y="-270"/></crop-area><partial-xform><m11>0.9999976201773518</m11><m12>0.00218165983433677</m12><m21>-0.00218165983433677</m21><m22>0.9999976201773518</m22></partial-xform><dpi horizontal="600" vertical="600"/><color-params colorMode="mixed"><color-or-grayscale fillMargins="1" fillOffcut="1" fillingColor="background" normalizeIlluminationColor="0"><posterization-options enabled="0" forceBlackAndWhite="1" level="4" normalizationEnabled="0"/></color-or-grayscale><bw binarizationMethod="otsu" morphologicalSmoothing="1" normalizeIlluminationBW="1" sauvolaCoef="0.34" savitzkyGolaySmoothing="1" thresholdAdj="0" windowSize="200" wolfCoef="0.3" wolfLowerBound="1" wolfUpperBound="254"><color-segmenter-options blueThresholdAdjustment="0" enabled="0" greenThresholdAdjustment="0" noiseReduction="7" redThresholdAdjustment="0"/></bw></color-params><splitting originalBackground="0" splitOutput="0" splittingMode="bw"/><picture-shape-options higherSearchSensitivity="1" pictureShape="rectangular" sensitivity="100"/><dewarping-options mode="off" postDeskew="1" postDeskewAngle="0"/><processing-params autoZonesFound="1" blackOnWhiteSetManually="0"/></image><source_file mtime="1698783384" size="2890349"/><file mtime="1699402381" size="5426746"/><automask mtime="1699402381" size="1100"/><speckles mtime="1699402381" size="690"/><zones><zone><spline><point x="1296.024550606199" y="387.1734366977415"/><point x="1303.285114534872" y="3715.165516647968"/><point x="1997.283462937954" y="3713.651444722938"/><point x="1990.022899009281" y="385.6593647727118"/><point x="1296.024550606199" y="387.1734366977415"/></spline><properties><property layer="painter2" type="PictureZoneProperty"/><property type="ZoneCategoryProperty" zoneCategory="auto"/></properties></zone><zone><spline><point x="666.8229425617324" y="1670.549194780407"/><point x="668.7340765766114" y="2546.547110055767"/><point x="946.7334149859151" y="2545.940608621822"/><point x="944.8222809710362" y="1669.942693346462"/><point x="666.8229425617324" y="1670.549194780407"/></spline><properties><property layer="painter2" type="PictureZoneProperty"/><property type="ZoneCategoryProperty" zoneCategory="auto"/></properties></zone></zones><fill-zones/></output-params></page></output></filters></project>"#;

const WITH_MARGINAL_MODEL: &str = r#"<project layoutDirection="LTR" outputDirectory="/home/ramzi/src/bill-organizer/out" version="3"><directories><directory id="1" path="/home/ramzi/src/bill-organizer"/></directories><files><file dirId="1" id="2" name="in.jpg"/></files><images><image fileId="2" fileImage="0" id="3" subPages="1"><size height="4961" width="7016"/><dpi horizontal="600" vertical="600"/></image></images><pages><page id="4" imageId="3" selected="selected" subPage="single"/></pages><file-name-disambiguation><mapping file="2" label="0"/></file-name-disambiguation><filters><fix-orientation><image-settings><page id="4"><image-params blackOnWhite="1" bwThreshold="193"/></page></image-settings></fix-orientation><page-split defaultLayoutType="auto-detect"><image id="3" layoutType="single-uncut"><params mode="auto"><pages type="single-uncut"><outline><point x="0" y="0"/><point x="7016" y="0"/><point x="7016" y="4961"/><point x="0" y="4961"/><point x="0" y="0"/></outline></pages><dependencies><rotation degrees="0"/><size height="4961" width="7016"/><layoutType>single-uncut</layoutType></dependencies></params></image></page-split><deskew><page id="4"><params angle="0.125" mode="auto"><dependencies><rotation degrees="0"/><page-outline><point x="0" y="0"/><point x="7016" y="0"/><point x="7016" y="4961"/><point x="0" y="4961"/><point x="0" y="0"/></page-outline></dependencies></params></page><image-settings><page id="4"><image-params blackOnWhite="1" bwThreshold="193"/></page></image-settings></deskew><select-content pageDetectionTolerance="0.1"><page id="4"><params contentDetectionMode="auto" fineTuneCorners="0" pageDetectionMode="disabled"><content-rect height="3384" width="2260" x="344" y="388"/><page-rect height="4976.294719097549" width="7026.806517602445" x="0" y="0"/><content-size-mm height="143.256286512573" width="95.6735246803827"/><dependencies><rotated-page-outline><point x="10.82321443814471" y="0"/><point x="7026.806517602445" y="15.30652539770678"/><point x="7015.9833031643" y="4976.294719097549"/><point x="0" y="4960.988193699843"/><point x="10.82321443814471" y="0"/></rotated-page-outline><params contentDetectionMode="auto" fineTuneCorners="0" pageDetectionMode="disabled"/></dependencies></params></page></select-content><page-layout showMiddleRect="1"><page id="4"><params autoMargins="0"><hardMarginsMM bottom="5" left="10" right="10" top="5"/><pageRect height="4976.294719097549" width="7026.806517602445" x="0" y="0"/><contentRect height="3384" width="2260" x="344" y="388"/><contentSizeMM height="143.256286512573" width="95.6735246803827"/><alignment hor="center" null="0" vert="center"/></params></page></page-layout><output><page id="4"><zones/><fill-zones/><params blackOnWhite="1" depthPerception="2" despeckleLevel="1"><distortion-model><top-curve><xspline><point x="334.0224766759178" y="14"/><point x="2204.362853173144" y="0"/><point x="2282.293702193861" y="0"/><point x="2360.224551214579" y="0"/><point x="2438.155400235297" y="0"/><point x="2516.086249256015" y="0"/><point x="2594.017098276733" y="0"/></xspline><polyline>4QKnQwAAYEEYNO5EVVUVQLOkDkUAAAAAmIMTRQAAAAB9YhhFAAAAAGFBHUUAAAAARiAiRQAAAAA=</polyline></top-curve><bottom-curve><xspline><point x="341.4052135553135" y="4960"/><point x="2204.362853173144" y="4960"/><point x="2282.293702193861" y="4960"/><point x="2360.224551214579" y="4960"/><point x="2438.155400235297" y="4960"/><point x="2516.086249256015" y="4960"/><point x="2601.399835156129" y="4960"/></xspline><polyline>3rOqQwAAm0V4W+5EAACbRbOkDkUAAJtFmIMTRQAAm0V9YhhFAACbRRFVHUUAAJtFZpYiRQAAm0U=</polyline></bottom-curve></distortion-model><picture-shape-options higherSearchSensitivity="0" pictureShape="free" sensitivity="100"/><dewarping-options mode="marginal" postDeskew="1" postDeskewAngle="0"/><dpi horizontal="600" vertical="600"/><color-params colorMode="bw"><color-or-grayscale fillMargins="1" fillOffcut="1" fillingColor="background" normalizeIlluminationColor="0"><posterization-options enabled="0" forceBlackAndWhite="1" level="4" normalizationEnabled="0"/></color-or-grayscale><bw binarizationMethod="otsu" morphologicalSmoothing="1" normalizeIlluminationBW="1" sauvolaCoef="0.34" savitzkyGolaySmoothing="1" thresholdAdj="0" windowSize="200" wolfCoef="0.3" wolfLowerBound="1" wolfUpperBound="254"><color-segmenter-options blueThresholdAdjustment="0" enabled="0" greenThresholdAdjustment="0" noiseReduction="7" redThresholdAdjustment="0"/></bw></color-params><splitting originalBackground="0" splitOutput="0" splittingMode="bw"/></params><processing-params autoZonesFound="0" blackOnWhiteSetManually="0"/><output-params><image blackOnWhite="1" depthPerception="2" despeckleLevel="1"><size height="3620" width="2732"/><content-rect height="3384" width="2260" x="236" y="118"/><crop-area><point x="-97.17678556185528" y="-270"/><point x="6918.806517602445" y="-254.6934746022932"/><point x="6907.9833031643" y="4706.294719097549"/><point x="-108" y="4690.988193699843"/><point x="-97.17678556185528" y="-270"/></crop-area><partial-xform><m11>0.9999976201773518</m11><m12>0.00218165983433677</m12><m21>-0.00218165983433677</m21><m22>0.9999976201773518</m22></partial-xform><dpi horizontal="600" vertical="600"/><color-params colorMode="bw"><color-or-grayscale fillMargins="1" fillOffcut="1" fillingColor="background" normalizeIlluminationColor="0"><posterization-options enabled="0" forceBlackAndWhite="1" level="4" normalizationEnabled="0"/></color-or-grayscale><bw binarizationMethod="otsu" morphologicalSmoothing="1" normalizeIlluminationBW="1" sauvolaCoef="0.34" savitzkyGolaySmoothing="1" thresholdAdj="0" windowSize="200" wolfCoef="0.3" wolfLowerBound="1" wolfUpperBound="254"><color-segmenter-options blueThresholdAdjustment="0" enabled="0" greenThresholdAdjustment="0" noiseReduction="7" redThresholdAdjustment="0"/></bw></color-params><splitting originalBackground="0" splitOutput="0" splittingMode="bw"/><picture-shape-options higherSearchSensitivity="0" pictureShape="free" sensitivity="100"/><distortion-model><top-curve><xspline><point x="334.0224766759178" y="14"/><point x="2204.362853173144" y="0"/><point x="2282.293702193861" y="0"/><point x="2360.224551214579" y="0"/><point x="2438.155400235297" y="0"/><point x="2516.086249256015" y="0"/><point x="2594.017098276733" y="0"/></xspline><polyline>4QKnQwAAYEEYNO5EVVUVQLOkDkUAAAAAmIMTRQAAAAB9YhhFAAAAAGFBHUUAAAAARiAiRQAAAAA=</polyline></top-curve><bottom-curve><xspline><point x="341.4052135553135" y="4960"/><point x="2204.362853173144" y="4960"/><point x="2282.293702193861" y="4960"/><point x="2360.224551214579" y="4960"/><point x="2438.155400235297" y="4960"/><point x="2516.086249256015" y="4960"/><point x="2601.399835156129" y="4960"/></xspline><polyline>3rOqQwAAm0V4W+5EAACbRbOkDkUAAJtFmIMTRQAAm0V9YhhFAACbRRFVHUUAAJtFZpYiRQAAm0U=</polyline></bottom-curve></distortion-model><dewarping-options mode="marginal" postDeskew="1" postDeskewAngle="0"/><processing-params autoZonesFound="0" blackOnWhiteSetManually="0"/></image><source_file mtime="1698783384" size="2890349"/><file mtime="1699405212" size="26562"/><speckles mtime="1699405212" size="690"/><zones/><fill-zones/></output-params></page></output></filters></project>"#;

#[test]
fn it_deserializes() {
    parse_project(ORIGINAL_CONTENT).unwrap();
}

#[test]
fn it_validates() {
    let project = parse_project(ORIGINAL_CONTENT).unwrap();
    assert!(validate_project(&project).is_empty());
}

#[test]
fn it_serializes() {
    let project = parse_project(ORIGINAL_CONTENT).unwrap();
    let text = serialize_project(&project);
    assert!(!text.is_empty());
}

#[test]
fn serialized_output_matches_original() {
    let project = parse_project(ORIGINAL_CONTENT).unwrap();
    let output_content = serialize_project(&project);
    assert_eq!(ORIGINAL_CONTENT, output_content);
}

#[test]
fn every_sample_round_trips_byte_for_byte() {
    for doc in [
        ORIGINAL_CONTENT,
        WITH_TWO_PAGES,
        WITH_ZONES_AND_OUTPUT,
        WITH_MARGINAL_MODEL,
    ] {
        let text = reserialize(doc).unwrap();
        assert_eq!(doc, text);
    }
}

#[test]
fn tables_come_through_the_parse() {
    let project = parse_project(WITH_TWO_PAGES).unwrap();
    assert_eq!(project.directories.directory.len(), 1);
    assert_eq!(project.directories.directory[0].id, 1);
    assert_eq!(project.directories.directory[0].path, "/home/ramzi/src/bill-organizer");
    assert_eq!(project.files.file.len(), 1);
    assert_eq!(project.files.file[0].name, "in.jpg");
    assert_eq!(project.images.image.len(), 1);
    assert_eq!(project.images.image[0].sub_pages, 2);
    assert_eq!(project.images.image[0].size.height, 4961);
    assert_eq!(project.images.image[0].size.width, 7016);
    assert_eq!(project.pages.page.len(), 2);
    assert!(project.pages.page[0].selected.is_some());
    assert!(project.pages.page[1].selected.is_none());
    assert_eq!(project.file_name_disambiguation.mapping.len(), 1);
    assert_eq!(project.file_name_disambiguation.mapping[0].label, "0");
    assert_eq!(project.version, 3);
}

#[test]
fn output_params_record_is_read_back() {
    let project = parse_project(WITH_ZONES_AND_OUTPUT).unwrap();
    let page = &project.filters.output.page[0];
    let op = page.output_params.as_ref().unwrap();
    assert_eq!(op.source_file.mtime, 1698783384);
    assert_eq!(op.source_file.size, 2890349);
    assert!(op.automask.is_some());
    assert!(op.speckles.is_some());
    assert!(op.foreground_file.is_none());
    assert_eq!(op.image.size.height, 3620);
}
