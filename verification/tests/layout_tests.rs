use arexibo::layout::{Translator, TransitionInfo, LAYOUT_CSS, SCRIPT, TRANSLATOR_VERSION};
use arexibo::text::percent_decode;
use arexibo::xml::FieldError;

fn translate(xlf: &str, code_map: Vec<(String, i64)>) -> ((i32, i32), String) {
    Translator::new(5, xlf.as_bytes(), code_map).unwrap().translate().unwrap()
}

fn header(w: i32, h: i32, styles: &str) -> String {
    format!(
        "<!DOCTYPE html>\n<!-- VERSION=10 -->\n<html><head>\n<meta charset='utf-8'>\n\
         <script src='qrc:///qtwebchannel/qwebchannel.js'></script>\n\
         <script type='text/javascript'>{SCRIPT}window.arexibo.id = 5;\nwindow.arexibo.width = {w};\n\
         window.arexibo.height = {h};\n</script>\n<style type='text/css'>{LAYOUT_CSS}\n{styles}</style>\n\
         </head><body>\n"
    )
}

fn footer(rids: &[i32]) -> String {
    let mut s = String::from("<script type='text/javascript'>\nwindow.addEventListener('load', function() {\n");
    for r in rids {
        s.push_str(&format!("  window.arexibo.region_switch({r}, 0, true);\n"));
    }
    s.push_str("});\n</script>\n</body></html>\n");
    s
}

fn entry(mid: i32, start: &str, stop: &str, tin: &str, tout: Option<&str>, duration: &str) -> String {
    let mut s = format!(
        "    [function() {{\n      var el = document.getElementById('m{mid}');\n      el.style.visibility = 'visible';\n      {start}\n      var region = el.parentElement;\n      window.arexibo.transitions.apply(el, {tin}, true, region.offsetWidth, region.offsetHeight);\n    }}, function(callback) {{\n      var el = document.getElementById('m{mid}');\n      {stop}\n"
    );
    match tout {
        Some(t) => s.push_str(&format!(
            "      var region = el.parentElement;\n      window.arexibo.transitions.apply(el, {t}, false, region.offsetWidth, region.offsetHeight, function() {{\n        el.style.visibility = 'hidden';\n        if (callback) callback();\n      }});\n"
        )),
        None => s.push_str("      if (callback) callback();\n"),
    }
    s.push_str(&format!("    }}, {duration}],\n"));
    s
}

fn region_script(rid: i32, entries: &[String]) -> String {
    let mut s = format!(
        "<script type='text/javascript'>\nwindow.arexibo.regions[{rid}] = {{\n  done: false,\n  cur: null,\n  timeoutid: null,\n  total: {},\n  media: [\n",
        entries.len()
    );
    for e in entries {
        s.push_str(e);
    }
    s.push_str("  ],\n};\n</script>\n");
    s
}

#[test]
fn transition_without_type_is_null() {
    let t = TransitionInfo { trans_type: String::new(), duration: 1000, direction: "N".to_string() };
    assert_eq!(t.to_js(), "null");
}

#[test]
fn transition_with_type_is_an_object() {
    let t = TransitionInfo { trans_type: "flyIn".to_string(), duration: 800, direction: "NE".to_string() };
    assert_eq!(t.to_js(), "{type: \"flyIn\", duration: 800, direction: \"NE\"}");
    let q = TransitionInfo { trans_type: "fade\"x".to_string(), duration: -1, direction: "N".to_string() };
    assert_eq!(q.to_js(), "{type: \"fade\\\"x\", duration: -1, direction: \"N\"}");
}

#[test]
fn version_is_ten() {
    assert_eq!(TRANSLATOR_VERSION, 10);
}

#[test]
fn full_layout_translation() {
    let xlf = r#"<layout width="1920" height="1080" bgcolor="black" background="bg.png">
  <region id="1" left="0" top="10" width="960" height="540" zindex="2">
    <media id="10" type="image" duration="5"><options><uri>a.jpg</uri><scaleType>stretch</scaleType><transIn>fadeIn</transIn><transInDuration>500</transInDuration></options></media>
    <media id="11" type="webpage"><options><uri>http%3A%2F%2Fx.org%2F%zz</uri><transOut>flyOut</transOut><transOutDirection>E</transOutDirection><transOutDuration>soon</transOutDuration></options></media>
  </region>
  <region id="2" left="0" top="0" width="10" height="10"><media id="12" type="flash"><options/></media></region>
  <action triggerType="webhook" actionType="next" target="region" targetId="1" triggerCode="go" />
  <action triggerType="touch" actionType="next" target="region" targetId="1" />
</layout>"#;
    let (size, html) = translate(xlf, vec![]);
    assert_eq!(size, (1920, 1080));
    let mut expected = header(
        1920,
        1080,
        "body { background-image: url('bg.png'); background-size: 100vw 100vh; }\nbody { background-color: black; }\n",
    );
    expected.push_str("<!-- region 1 -->\n<style type='text/css'> .r1 { z-index: 2; } </style>\n");
    expected.push_str("  <!-- media 10 -->\n<img class='media r1' id='m10' src='a.jpg' style='left: 0px; top: 10px; width: 960px; height: 540px; object-fit: fill;'>\n");
    expected.push_str("  <!-- media 11 -->\n<iframe class='media r1' id='m11' src='http://x.org/%zz' style='left: 0px; top: 10px; width: 960px; height: 540px;'></iframe>\n");
    expected.push_str(&region_script(
        1,
        &[
            entry(10, "", "", "{type: \"fadeIn\", duration: 500, direction: \"N\"}", Some("null"), "() => 5"),
            entry(11, "", "", "null", Some("{type: \"flyOut\", duration: 1000, direction: \"E\"}"), "() => 10"),
        ],
    ));
    expected.push_str("<!-- region 2 -->\n  <!-- media 12 -->\n");
    expected.push_str("<script type='text/javascript'>\nwindow.arexibo.triggers[\"go\"] = {\n  action: \"next\",\n  target: \"region\",\n  targetid: 1,\n  layoutid: 0\n};\n</script>\n");
    expected.push_str(&footer(&[1]));
    assert_eq!(html, expected);
}

#[test]
fn single_media_region_has_no_exit_transition() {
    let xlf = r#"<layout width="100" height="50"><region id="3" left="1" top="2" width="3" height="4"><media id="7" render="html" type="clock"><options><transOut>fadeOut</transOut></options></media></region></layout>"#;
    let (_, html) = translate(xlf, vec![]);
    let mut expected = header(100, 50, "");
    expected.push_str("<!-- region 3 -->\n  <!-- media 7 -->\n<iframe class='media r3' id='m7' src='7.html?w=3&h=4' style='left: 1px; top: 2px; width: 3px; height: 4px;'></iframe>\n");
    expected.push_str(&region_script(3, &[entry(7, "", "", "null", None, "() => 10")]));
    expected.push_str("<script type='text/javascript'>\n</script>\n");
    expected.push_str(&footer(&[3]));
    assert_eq!(html, expected);
}

#[test]
fn video_and_pdf_media() {
    let xlf = r#"<layout width="100" height="50"><region id="1" left="0" top="0" width="3" height="4"><media id="8" type="localvideo"><options><uri>v%20a.mp4</uri><mute>1</mute><align>left</align></options></media><media id="9" type="pdf"><options><uri>d%20c.pdf</uri></options></media></region></layout>"#;
    let (_, html) = translate(xlf, vec![]);
    let mut expected = header(100, 50, "");
    expected.push_str("<!-- region 1 -->\n");
    expected.push_str("  <!-- media 8 -->\n<video class='media r1' id='m8' src='v a.mp4' muted style='left: 0px; top: 0px; width: 3px; height: 4px; object-fit: contain;'></video>\n");
    expected.push_str("  <!-- media 9 -->\n<iframe class='media r1' id='m9' src='d%20c.pdf' style='left: 0px; top: 0px; width: 3px; height: 4px;'></iframe>\n");
    expected.push_str(&region_script(
        1,
        &[
            entry(8, "document.getElementById('m8').play();", "", "null", Some("null"), "() => document.getElementById('m8').duration"),
            entry(9, "", "", "null", Some("null"), "() => 10"),
        ],
    ));
    expected.push_str("<script type='text/javascript'>\n</script>\n");
    expected.push_str(&footer(&[1]));
    assert_eq!(html, expected);
}

#[test]
fn image_position_follows_options_attributes() {
    let xlf = r#"<layout width="1" height="1"><region id="1" left="0" top="0" width="3" height="4"><media id="8" type="image"><options align="right" halign="bottom"><uri>i.png</uri></options></media></region></layout>"#;
    let (_, html) = translate(xlf, vec![]);
    assert!(html.contains("<img class='media r1' id='m8' src='i.png' style='left: 0px; top: 0px; width: 3px; height: 4px; object-fit: contain; object-position: right bottom;'>\n"));
    let xlf2 = r#"<layout width="1" height="1"><region id="1" left="0" top="0" width="3" height="4"><media id="8" type="image"><options halign="top"><uri>i.png</uri></options></media></region></layout>"#;
    let (_, html2) = translate(xlf2, vec![]);
    assert!(html2.contains("object-fit: contain; object-position: top;'>\n"));
}

#[test]
fn shell_commands() {
    let xlf = r#"<layout width="1" height="1"><region id="1" left="0" top="0" width="3" height="4">
<media id="5" type="shellcommand"><options><commandType>storedCommand</commandType><commandCode>reboot</commandCode></options></media>
<media id="6" type="shellcommand"><options><commandType>x</commandType><launchThroughCmd>1</launchThroughCmd><useGlobalCommand>0</useGlobalCommand><linuxCommand>ls -l</linuxCommand><terminateCommand>1</terminateCommand><useTaskkill>1</useTaskkill></options></media>
<media id="7" type="shellcommand"><options><commandType>x</commandType><launchThroughCmd>0</launchThroughCmd><useGlobalCommand>1</useGlobalCommand><globalCommand>true</globalCommand><terminateCommand>0</terminateCommand></options></media>
<media id="8" type="shellcommand"><options><commandType>x</commandType></options></media>
</region></layout>"#;
    let (_, html) = translate(xlf, vec![]);
    let mut expected = header(1, 1, "");
    expected.push_str("<!-- region 1 -->\n");
    for m in 5..=8 {
        expected.push_str(&format!(
            "  <!-- media {m} -->\n<div class='media r1' id='m{m}' style='left: 0px; top: 0px; width: 3px; height: 4px;'></div>\n"
        ));
    }
    expected.push_str(&region_script(
        1,
        &[
            entry(5, "window.arexiboGui.jsCommand(\"reboot\");", "", "null", Some("null"), "() => 10"),
            entry(6, "window.arexiboGui.jsShell(\"ls -l\", true);", "window.arexiboGui.jsStopShell(2);", "null", Some("null"), "() => 10"),
            entry(7, "window.arexiboGui.jsShell(\"true\", false);", "window.arexiboGui.jsStopShell(0);", "null", Some("null"), "() => 10"),
        ],
    ));
    expected.push_str("<script type='text/javascript'>\n</script>\n");
    expected.push_str(&footer(&[1]));
    assert_eq!(html, expected);
}

#[test]
fn nav_layout_action_uses_code_map() {
    let xlf = r#"<layout width="1" height="1">
<action triggerType="webhook" actionType="navLayout" target="layout" targetId="0" triggerCode="a" layoutCode="promo" />
<action triggerType="webhook" actionType="navLayout" target="layout" targetId="0" triggerCode="b" layoutCode="nope" />
<action triggerType="webhook" actionType="previous" target="layout" targetId="x" />
<action triggerType="webhook" actionType="previous" target="layout" targetId="-4" />
</layout>"#;
    let (_, html) = translate(xlf, vec![("promo".to_string(), 77), ("other".to_string(), 1)]);
    let mut expected = header(1, 1, "");
    expected.push_str("<script type='text/javascript'>\n");
    expected.push_str("window.arexibo.triggers[\"a\"] = {\n  action: \"navLayout\",\n  target: \"layout\",\n  targetid: 0,\n  layoutid: 77\n};\n");
    expected.push_str("window.arexibo.triggers[\"<not set>\"] = {\n  action: \"previous\",\n  target: \"layout\",\n  targetid: -4,\n  layoutid: 0\n};\n");
    expected.push_str("</script>\n");
    expected.push_str(&footer(&[]));
    assert_eq!(html, expected);
}

#[test]
fn media_fault_keeps_written_comment() {
    let xlf = r#"<layout width="1" height="1"><region id="1" left="0" top="0" width="3" height="4">
<media id="5" type="webpage"><options/></media>
<media type="image"><options><uri>x</uri></options></media>
<media id="6" type="image"></media>
</region><region id="2" left="0" top="0" width="3"/></layout>"#;
    let (_, html) = translate(xlf, vec![]);
    let mut expected = header(1, 1, "");
    expected.push_str("<!-- region 1 -->\n  <!-- media 5 -->\n");
    expected.push_str("<script type='text/javascript'>\n</script>\n");
    expected.push_str(&footer(&[]));
    assert_eq!(html, expected);
}

#[test]
fn missing_size_fails_translation() {
    let t = Translator::new(1, br#"<layout width="10"></layout>"#, vec![]).unwrap();
    assert!(matches!(t.translate(), Err(FieldError::MissingAttribute("height"))));
    let t = Translator::new(1, br#"<layout width="wide" height="1"></layout>"#, vec![]).unwrap();
    assert!(matches!(t.translate(), Err(FieldError::InvalidAttribute("width"))));
}

#[test]
fn malformed_xml_is_refused() {
    assert!(Translator::new(1, b"<layout width='1'>", vec![]).is_err());
}

#[test]
fn percent_decoding() {
    assert_eq!(percent_decode("a%20b%2fc"), "a b/c");
    assert_eq!(percent_decode("100%"), "100%");
    assert_eq!(percent_decode("%4"), "%4");
    assert_eq!(percent_decode("%e2%82%ac"), "\u{20ac}");
    assert_eq!(percent_decode("%ff"), "\u{fffd}");
}
