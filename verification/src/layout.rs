//! Translation of Xibo Layout Format (XLF) documents into standalone HTML
//! documents that the player renders.
//!
//! Media items support in/out transitions defined in the XLF options:
//! `transIn`, `transInDuration`, `transInDirection` for the entry transition and
//! `transOut`, `transOutDuration`, `transOutDirection` for the exit transition.
//! The types are `fadeIn`/`fadeOut` (opacity, duration in ms) and
//! `flyIn`/`flyOut` (slide from/to a compass direction: N, NE, E, SE, S, SW, W,
//! NW), carried out by CSS transitions in the generated script.

use vstd::prelude::*;
use crate::text::{
    debug_quoted, debug_quoted_text, decimal_text, int_text, parse_i32, parsed_i32, percent_decode,
    percent_decoded, text_eq,
};
use crate::schedule::LayoutId;
use crate::xml::{XmlNode, XmlError, parse_xml, attr_i64, node_is, xml_document,
    FieldError, attr_i32, attr_of, attr_or, child_of, child_text_of, has_tag};

verus! {

/// The version of the translation, written into every document so that
/// documents made by another version are translated anew.
pub const TRANSLATOR_VERSION: u32 = 10;

/// The style sheet every layout document starts with.
pub const LAYOUT_CSS: &'static str = r#"
body { margin: 0; background-repeat: no-repeat; overflow: hidden; }
iframe { border: 0 }
.media { position: absolute; visibility: hidden; }
p { margin-top: 0; }
"#;

/// The script that runs a layout document's regions, media and triggers.
pub const SCRIPT: &'static str = r#"
new QWebChannel(qt.webChannelTransport, function(channel) {
  window.arexiboGui = channel.objects.arexibo;
  window.arexiboGui.jsLayoutInit(window.arexibo.id,
                                 window.arexibo.width, window.arexibo.height);
});

window.arexibo = {
  id: 0,
  width: 0,
  height: 0,
  done: false,
  regions_total: 0,
  triggers: {},
  regions: {},

  // Transition utilities
  transitions: {
    fadeIn: function(element, duration) {
      element.style.opacity = '0';
      element.style.transition = 'opacity ' + (duration / 1000) + 's linear';
      setTimeout(function() { element.style.opacity = '1'; }, 10);
    },

    fadeOut: function(element, duration, callback) {
      element.style.transition = 'opacity ' + (duration / 1000) + 's linear';
      element.style.opacity = '0';
      setTimeout(callback, duration);
    },

    flyIn: function(element, duration, direction, regionWidth, regionHeight) {
      var offsets = {
        'N': { x: 0, y: -regionHeight }, 'NE': { x: regionWidth, y: -regionHeight },
        'E': { x: regionWidth, y: 0 }, 'SE': { x: regionWidth, y: regionHeight },
        'S': { x: 0, y: regionHeight }, 'SW': { x: -regionWidth, y: regionHeight },
        'W': { x: -regionWidth, y: 0 }, 'NW': { x: -regionWidth, y: -regionHeight }
      };
      var offset = offsets[direction] || offsets['N'];
      element.style.transform = 'translate(' + offset.x + 'px, ' + offset.y + 'px)';
      element.style.opacity = '0';
      element.style.transition = 'transform ' + (duration / 1000) + 's ease-out, opacity ' + (duration / 1000) + 's ease-out';
      setTimeout(function() {
        element.style.transform = 'translate(0, 0)';
        element.style.opacity = '1';
      }, 10);
    },

    flyOut: function(element, duration, direction, regionWidth, regionHeight, callback) {
      var offsets = {
        'N': { x: 0, y: regionHeight }, 'NE': { x: -regionWidth, y: regionHeight },
        'E': { x: -regionWidth, y: 0 }, 'SE': { x: -regionWidth, y: -regionHeight },
        'S': { x: 0, y: -regionHeight }, 'SW': { x: regionWidth, y: -regionHeight },
        'W': { x: regionWidth, y: 0 }, 'NW': { x: regionWidth, y: regionHeight }
      };
      var offset = offsets[direction] || offsets['N'];
      element.style.transition = 'transform ' + (duration / 1000) + 's ease-in, opacity ' + (duration / 1000) + 's ease-in';
      element.style.transform = 'translate(' + offset.x + 'px, ' + offset.y + 'px)';
      element.style.opacity = '0';
      setTimeout(callback, duration);
    },

    apply: function(element, config, isIn, regionWidth, regionHeight, callback) {
      if (!config || !config.type) {
        if (callback) callback();
        return;
      }
      var type = config.type.toLowerCase();
      var duration = config.duration || 1000;
      var direction = config.direction || 'N';

      switch (type) {
        case 'fadein':
          if (isIn) this.fadeIn(element, duration);
          if (callback) callback();
          break;
        case 'fadeout':
          if (!isIn) this.fadeOut(element, duration, callback);
          else if (callback) callback();
          break;
        case 'flyin':
          if (isIn) this.flyIn(element, duration, direction, regionWidth, regionHeight);
          if (callback) callback();
          break;
        case 'flyout':
          if (!isIn) this.flyOut(element, duration, direction, regionWidth, regionHeight, callback);
          else if (callback) callback();
          break;
        default:
          if (callback) callback();
      }
    }
  },

  region_switch: function(rid, next, first) {
    let {cur, total, timeoutid, media} = this.regions[rid];
    // stop a timeout, if it still exists
    window.clearTimeout(timeoutid);

    // determine next media
    if (next == -1)
      next = (cur + 1) % total;
    else if (next == -2)
      next = (cur + total - 1) % total;

    this.regions[rid].cur = next;
    // when the first media is called for the second time, the region is "done"
    if (next == 0 && !first) {
      this.region_done(rid);
    }

    // Handle transitions
    var self = this;
    if (cur !== null && total > 1) {
      // Apply out transition to current media, then show next
      media[cur][1](function() {
        // Start next media after out transition completes
        media[next][0]();
        // Set timeout to switch to the next media
        let duration = media[next][2]() || 1;
        self.regions[rid].timeoutid = window.setTimeout(() => {
          self.region_switch(rid, -1, false);
        }, duration * 1000);
      });
    } else {
      // No current media or single item, just start next
      media[next][0]();
      // Set timeout to switch to the next media
      let duration = media[next][2]() || 1;
      this.regions[rid].timeoutid = window.setTimeout(() => {
        this.region_switch(rid, -1, false);
      }, duration * 1000);
    }
  },

  region_done: function(rid) {
    if (this.done) return;

    this.regions[rid].done = true;
    // check if all regions are done
    for (let region of Object.values(this.regions)) {
      if (!region.done) return;
    }
    window.arexiboGui.jsLayoutDone(window.arexibo.id);
    this.done = true;
  },

  trigger: function(code) {
    if (this.triggers[code] !== undefined) {
      let {action, target, targetid, layoutid} = this.triggers[code];
      if (action == 'navLayout') {
        window.arexiboGui.jsLayoutJump(window.arexibo.id, layoutid);
      } else if (action == 'previous' || action == 'next') {
        if (target == 'layout') {
          if (action == 'next')
            window.arexiboGui.jsLayoutDone(window.arexibo.id);
          else
            window.arexiboGui.jsLayoutPrev(window.arexibo.id);
        } else {
          if (action == 'next')
            this.region_switch(targetid, -1);
          else
            this.region_switch(targetid, -2);
        }
      }
    }
  },
};
"#;

/// A media item's transition: its type (`fadeIn`, `fadeOut`, `flyIn`, `flyOut`,
/// or empty for none), duration in milliseconds and compass direction.
pub struct TransitionInfo {
    pub trans_type: String,
    pub duration: i32,
    pub direction: String,
}

/// The value of a transition.
pub struct TransitionView {
    pub trans_type: Seq<char>,
    pub duration: i32,
    pub direction: Seq<char>,
}

impl View for TransitionInfo {
    type V = TransitionView;

    open spec fn view(&self) -> TransitionView {
        TransitionView {
            trans_type: self.trans_type@,
            duration: self.duration,
            direction: self.direction@,
        }
    }
}

/// The script object for a transition: `null` where it has no type.
pub open spec fn transition_js(t: TransitionView) -> Seq<char> {
    if t.trans_type.len() == 0 {
        "null"@
    } else {
        "{type: "@ + debug_quoted_text(t.trans_type) + ", duration: "@ + decimal_text(t.duration as int)
            + ", direction: "@ + debug_quoted_text(t.direction) + "}"@
    }
}

impl TransitionInfo {
    /// The script object for this transition.
    pub fn to_js(&self) -> (r: String)
        ensures
            r@ == transition_js(self@),
    {
        if self.trans_type.as_str().is_empty() {
            String::from_str("null")
        } else {
            let mut s = String::from_str("{type: ");
            s.append(debug_quoted(self.trans_type.as_str()).as_str());
            s.append(", duration: ");
            s.append(int_text(self.duration as i128).as_str());
            s.append(", direction: ");
            s.append(debug_quoted(self.direction.as_str()).as_str());
            s.append("}");
            s
        }
    }
}

/// The style that fits an image or video in its box: `scaleType` `stretch`
/// fills it, anything else keeps the aspect ratio.
pub open spec fn fit_css(opts: XmlNode) -> Seq<char> {
    if child_text_of(opts, "scaleType"@) == Some("stretch"@) {
        " object-fit: fill;"@
    } else {
        " object-fit: contain;"@
    }
}

/// The style that places an image or video in its box, from the `align`
/// (default `center`) and `halign` (default `middle`) attributes.
pub open spec fn position_css(opts: XmlNode) -> Seq<char> {
    let a = attr_or(opts, "align"@, "center"@);
    let h = attr_or(opts, "halign"@, "middle"@);
    if a == "left"@ {
        if h == "top"@ {
            " object-position: left top;"@
        } else if h == "bottom"@ {
            " object-position: left bottom;"@
        } else {
            " object-position: left;"@
        }
    } else if a == "right"@ {
        if h == "top"@ {
            " object-position: right top;"@
        } else if h == "bottom"@ {
            " object-position: right bottom;"@
        } else {
            " object-position: right;"@
        }
    } else if h == "top"@ {
        " object-position: top;"@
    } else if h == "bottom"@ {
        " object-position: bottom;"@
    } else {
        ""@
    }
}

/// The object-fit style for the media options `el`.
fn object_fit(el: &XmlNode) -> (r: &'static str)
    ensures
        r@ == fit_css(*el),
{
    match el.find("scaleType") {
        Some(e) => if text_eq(e.text(), "stretch") {
            " object-fit: fill;"
        } else {
            " object-fit: contain;"
        },
        None => " object-fit: contain;",
    }
}

/// The object-position style for the media options `el`.
fn object_pos(el: &XmlNode) -> (r: &'static str)
    ensures
        r@ == position_css(*el),
{
    let a = el.def_attr("align", "center");
    let h = el.def_attr("halign", "middle");
    if text_eq(a, "left") {
        if text_eq(h, "top") {
            " object-position: left top;"
        } else if text_eq(h, "bottom") {
            " object-position: left bottom;"
        } else {
            " object-position: left;"
        }
    } else if text_eq(a, "right") {
        if text_eq(h, "top") {
            " object-position: right top;"
        } else if text_eq(h, "bottom") {
            " object-position: right bottom;"
        } else {
            " object-position: right;"
        }
    } else if text_eq(h, "top") {
        " object-position: top;"
    } else if text_eq(h, "bottom") {
        " object-position: bottom;"
    } else {
        ""
    }
}

/// A media box's geometry: left, top, width and height in pixels.
pub type Geom = (i32, i32, i32, i32);

/// The decimal text of an `i32`.
pub open spec fn dec(v: i32) -> Seq<char> {
    decimal_text(v as int)
}

/// A media item that was translated: its id, the script expression for its
/// duration, the script run when it starts and when it stops, and its
/// transitions.
pub struct MediaInfo {
    pub mid: i32,
    pub duration: String,
    pub add_start: String,
    pub add_stop: String,
    pub trans_in: TransitionInfo,
    pub trans_out: TransitionInfo,
}

/// The value of a translated media item.
pub struct MediaView {
    pub mid: i32,
    pub duration: Seq<char>,
    pub add_start: Seq<char>,
    pub add_stop: Seq<char>,
    pub trans_in: TransitionView,
    pub trans_out: TransitionView,
}

impl View for MediaInfo {
    type V = MediaView;

    open spec fn view(&self) -> MediaView {
        MediaView {
            mid: self.mid,
            duration: self.duration@,
            add_start: self.add_start@,
            add_stop: self.add_stop@,
            trans_in: self.trans_in@,
            trans_out: self.trans_out@,
        }
    }
}

/// A transition read from media options: the type from the child `type_tag`
/// (none where absent), the duration from `duration_tag` (1000 where absent or
/// not a number), the direction from `direction_tag` (`N` where absent).
pub open spec fn transition_of(
    opts: XmlNode,
    type_tag: Seq<char>,
    duration_tag: Seq<char>,
    direction_tag: Seq<char>,
) -> TransitionView {
    TransitionView {
        trans_type: match child_text_of(opts, type_tag) {
            Some(t) => t,
            None => Seq::empty(),
        },
        duration: match child_text_of(opts, duration_tag) {
            Some(t) => match parsed_i32(t) {
                Some(v) => v,
                None => 1000,
            },
            None => 1000,
        },
        direction: match child_text_of(opts, direction_tag) {
            Some(t) => t,
            None => "N"@,
        },
    }
}

/// The media's duration in seconds: its `duration` attribute, or 10 where that
/// is absent or not a number.
pub open spec fn duration_secs(media: XmlNode) -> i32 {
    match parsed_i32(attr_or(media, "duration"@, ""@)) {
        Some(v) => v,
        None => 10,
    }
}

/// The inline style of a media box.
pub open spec fn box_css(g: Geom) -> Seq<char> {
    "left: "@ + dec(g.0) + "px; top: "@ + dec(g.1) + "px; width: "@ + dec(g.2) + "px; height: "@ + dec(
        g.3,
    ) + "px;"@
}

/// The start of a media element's tag: its element name, classes and id.
pub open spec fn media_tag(tag: Seq<char>, rid: i32, mid: i32) -> Seq<char> {
    "<"@ + tag + " class='media r"@ + dec(rid) + "' id='m"@ + dec(mid) + "'"@
}

/// An iframe showing the media's own document.
pub open spec fn local_frame_html(rid: i32, mid: i32, g: Geom) -> Seq<char> {
    media_tag("iframe"@, rid, mid) + " src='"@ + dec(mid) + ".html?w="@ + dec(g.2) + "&h="@ + dec(g.3)
        + "' style='"@ + box_css(g) + "'></iframe>\n"@
}

/// An iframe showing `src`.
pub open spec fn frame_html(rid: i32, mid: i32, src: Seq<char>, g: Geom) -> Seq<char> {
    media_tag("iframe"@, rid, mid) + " src='"@ + src + "' style='"@ + box_css(g) + "'></iframe>\n"@
}

/// An image showing `src`.
pub open spec fn image_html(rid: i32, mid: i32, src: Seq<char>, g: Geom, opts: XmlNode) -> Seq<char> {
    media_tag("img"@, rid, mid) + " src='"@ + src + "' style='"@ + box_css(g) + fit_css(opts)
        + position_css(opts) + "'>\n"@
}

/// Whether the media options ask for muted sound (`mute` is `1`).
pub open spec fn muted(opts: XmlNode) -> bool {
    child_text_of(opts, "mute"@) == Some("1"@)
}

/// A video showing `src`.
pub open spec fn video_html(rid: i32, mid: i32, src: Seq<char>, g: Geom, opts: XmlNode) -> Seq<char> {
    media_tag("video"@, rid, mid) + " src='"@ + src + "' "@ + (if muted(opts) {
        "muted"@
    } else {
        ""@
    }) + " style='"@ + box_css(g) + fit_css(opts) + position_css(opts) + "'></video>\n"@
}

/// An empty box for a shell command.
pub open spec fn div_html(rid: i32, mid: i32, g: Geom) -> Seq<char> {
    media_tag("div"@, rid, mid) + " style='"@ + box_css(g) + "'></div>\n"@
}

/// The script that stops a shell command with the given kill mode.
pub open spec fn stop_shell_js(kill: i32) -> Seq<char> {
    "window.arexiboGui.jsStopShell("@ + dec(kill) + ");"@
}

/// The scripts that start and stop a shell-command media item, read from its
/// options in the order `commandType`, then `commandCode` for a stored
/// command, or `launchThroughCmd`, `useGlobalCommand`, the command,
/// `terminateCommand` and `useTaskkill`; the first missing child is the error.
pub open spec fn shell_actions(opts: XmlNode) -> Result<(Seq<char>, Seq<char>), FieldError> {
    match child_text_of(opts, "commandType"@) {
        None => Err(FieldError::MissingChild("commandType")),
        Some(ct) => if ct == "storedCommand"@ {
            match child_text_of(opts, "commandCode"@) {
                None => Err(FieldError::MissingChild("commandCode")),
                Some(code) => Ok(
                    ("window.arexiboGui.jsCommand("@ + debug_quoted_text(code) + ");"@, Seq::empty()),
                ),
            }
        } else {
            match child_text_of(opts, "launchThroughCmd"@) {
                None => Err(FieldError::MissingChild("launchThroughCmd")),
                Some(lt) => match child_text_of(opts, "useGlobalCommand"@) {
                    None => Err(FieldError::MissingChild("useGlobalCommand")),
                    Some(ug) => {
                        let cmd = if ug == "1"@ {
                            child_text_of(opts, "globalCommand"@)
                        } else {
                            child_text_of(opts, "linuxCommand"@)
                        };
                        match cmd {
                            None => Err(
                                FieldError::MissingChild(
                                    if ug == "1"@ {
                                        "globalCommand"
                                    } else {
                                        "linuxCommand"
                                    },
                                ),
                            ),
                            Some(c) => {
                                let start = "window.arexiboGui.jsShell("@ + debug_quoted_text(c) + ", "@
                                    + (if lt == "1"@ {
                                    "true"@
                                } else {
                                    "false"@
                                }) + ");"@;
                                match child_text_of(opts, "terminateCommand"@) {
                                    None => Err(FieldError::MissingChild("terminateCommand")),
                                    Some(tc) => if tc == "1"@ {
                                        match child_text_of(opts, "useTaskkill"@) {
                                            None => Err(FieldError::MissingChild("useTaskkill")),
                                            Some(tk) => Ok(
                                                (start, stop_shell_js(if tk == "1"@ { 2 } else { 1 })),
                                            ),
                                        }
                                    } else {
                                        Ok((start, stop_shell_js(0)))
                                    },
                                }
                            },
                        }
                    },
                },
            }
        },
    }
}

/// A `media` element translated in a region `rid` with geometry `g`: the text
/// written, and the item (`None` for a media type that is not supported).
/// Once the id and options are read, the media comment is written; a fault
/// after that keeps what was written before it.
pub open spec fn media_of(rid: i32, g: Geom, media: XmlNode) -> (Seq<char>, Result<Option<MediaView>, FieldError>) {
    match attr_i32(media, "id") {
        Err(e) => (Seq::empty(), Err(e)),
        Ok(mid) => match child_of(media, "options"@) {
            None => (Seq::empty(), Err(FieldError::MissingChild("options"))),
            Some(opts) => {
                let head = "  <!-- media "@ + dec(mid) + " -->\n"@;
                let duration = "() => "@ + dec(duration_secs(media));
                let tin = transition_of(opts, "transIn"@, "transInDuration"@, "transInDirection"@);
                let tout = transition_of(opts, "transOut"@, "transOutDuration"@, "transOutDirection"@);
                let plain = MediaView {
                    mid,
                    duration,
                    add_start: Seq::empty(),
                    add_stop: Seq::empty(),
                    trans_in: tin,
                    trans_out: tout,
                };
                let render = attr_of(media, "render"@);
                let typ = attr_of(media, "type"@);
                if render == Some("html"@) || typ == Some("text"@) || typ == Some("ticker"@) {
                    (head + local_frame_html(rid, mid, g), Ok(Some(plain)))
                } else if typ == Some("webpage"@) {
                    match child_text_of(opts, "uri"@) {
                        None => (head, Err(FieldError::MissingChild("uri"))),
                        Some(u) => (head + frame_html(rid, mid, percent_decoded(u), g), Ok(Some(plain))),
                    }
                } else if typ == Some("pdf"@) {
                    match child_text_of(opts, "uri"@) {
                        None => (head, Err(FieldError::MissingChild("uri"))),
                        Some(u) => (head + frame_html(rid, mid, u, g), Ok(Some(plain))),
                    }
                } else if typ == Some("image"@) {
                    match child_text_of(opts, "uri"@) {
                        None => (head, Err(FieldError::MissingChild("uri"))),
                        Some(u) => (head + image_html(rid, mid, u, g, opts), Ok(Some(plain))),
                    }
                } else if typ == Some("video"@) || typ == Some("localvideo"@) {
                    match child_text_of(opts, "uri"@) {
                        None => (head, Err(FieldError::MissingChild("uri"))),
                        Some(u) => (
                            head + video_html(rid, mid, percent_decoded(u), g, opts),
                            Ok(
                                Some(
                                    MediaView {
                                        mid,
                                        duration: "() => document.getElementById('m"@ + dec(mid)
                                            + "').duration"@,
                                        add_start: "document.getElementById('m"@ + dec(mid)
                                            + "').play();"@,
                                        add_stop: Seq::empty(),
                                        trans_in: tin,
                                        trans_out: tout,
                                    },
                                ),
                            ),
                        ),
                    }
                } else if typ == Some("shellcommand"@) {
                    let text = head + div_html(rid, mid, g);
                    match shell_actions(opts) {
                        Err(e) => (text, Err(e)),
                        Ok((start, stop)) => (
                            text,
                            Ok(
                                Some(
                                    MediaView {
                                        mid,
                                        duration,
                                        add_start: start,
                                        add_stop: stop,
                                        trans_in: tin,
                                        trans_out: tout,
                                    },
                                ),
                            ),
                        ),
                    }
                } else {
                    (head, Ok(None))
                }
            },
        },
    }
}

/// Appends the decimal text of `v`.
fn push_int(s: &mut String, v: i128)
    ensures
        final(s)@ == old(s)@ + decimal_text(v as int),
{
    let t = int_text(v);
    s.append(t.as_str());
}

/// Appends `t` in double quotes, escaped as `Debug` does.
fn push_quoted(s: &mut String, t: &str)
    ensures
        final(s)@ == old(s)@ + debug_quoted_text(t@),
{
    let q = debug_quoted(t);
    s.append(q.as_str());
}

/// Appends the inline style of a media box.
fn push_box(s: &mut String, g: Geom)
    ensures
        final(s)@ == old(s)@ + box_css(g),
{
    let ghost before = s@;
    s.append("left: ");
    push_int(s, g.0 as i128);
    s.append("px; top: ");
    push_int(s, g.1 as i128);
    s.append("px; width: ");
    push_int(s, g.2 as i128);
    s.append("px; height: ");
    push_int(s, g.3 as i128);
    s.append("px;");
    assert(s@ == before + box_css(g));
}

/// Appends the start of a media element's tag.
fn push_media_tag(s: &mut String, tag: &str, rid: i32, mid: i32)
    ensures
        final(s)@ == old(s)@ + media_tag(tag@, rid, mid),
{
    let ghost before = s@;
    s.append("<");
    s.append(tag);
    s.append(" class='media r");
    push_int(s, rid as i128);
    s.append("' id='m");
    push_int(s, mid as i128);
    s.append("'");
    assert(s@ == before + media_tag(tag@, rid, mid));
}

/// Reads a transition from media options.
fn read_transition(opts: &XmlNode, type_tag: &'static str, duration_tag: &'static str, direction_tag: &'static str) -> (r: TransitionInfo)
    ensures
        r@ == transition_of(*opts, type_tag@, duration_tag@, direction_tag@),
{
    let trans_type = match opts.find(type_tag) {
        Some(e) => String::from_str(e.text()),
        None => String::new(),
    };
    let duration = match opts.find(duration_tag) {
        Some(e) => match parse_i32(e.text()) {
            Some(v) => v,
            None => 1000,
        },
        None => 1000,
    };
    let direction = match opts.find(direction_tag) {
        Some(e) => String::from_str(e.text()),
        None => String::from_str("N"),
    };
    TransitionInfo { trans_type, duration, direction }
}

/// Reads the scripts that start and stop a shell-command media item.
fn read_shell_actions(opts: &XmlNode) -> (r: Result<(String, String), FieldError>)
    ensures
        match r {
            Ok((a, b)) => shell_actions(*opts) == Ok::<(Seq<char>, Seq<char>), FieldError>((a@, b@)),
            Err(e) => shell_actions(*opts) == Err::<(Seq<char>, Seq<char>), FieldError>(e),
        },
{
    let ct = match opts.req_child("commandType") {
        Ok(t) => t,
        Err(e) => { return Err(e); },
    };
    if text_eq(ct, "storedCommand") {
        let code = match opts.req_child("commandCode") {
            Ok(t) => t,
            Err(e) => { return Err(e); },
        };
        let mut start = String::from_str("window.arexiboGui.jsCommand(");
        push_quoted(&mut start, code);
        start.append(");");
        Ok((start, String::new()))
    } else {
        let lt = match opts.req_child("launchThroughCmd") {
            Ok(t) => t,
            Err(e) => { return Err(e); },
        };
        let with_shell = text_eq(lt, "1");
        let ug = match opts.req_child("useGlobalCommand") {
            Ok(t) => t,
            Err(e) => { return Err(e); },
        };
        let cmd = if text_eq(ug, "1") {
            opts.req_child("globalCommand")
        } else {
            opts.req_child("linuxCommand")
        };
        let cmd = match cmd {
            Ok(t) => t,
            Err(e) => { return Err(e); },
        };
        let mut start = String::from_str("window.arexiboGui.jsShell(");
        push_quoted(&mut start, cmd);
        start.append(", ");
        start.append(if with_shell { "true" } else { "false" });
        start.append(");");
        let tc = match opts.req_child("terminateCommand") {
            Ok(t) => t,
            Err(e) => { return Err(e); },
        };
        let kill: i32 = if text_eq(tc, "1") {
            let tk = match opts.req_child("useTaskkill") {
                Ok(t) => t,
                Err(e) => { return Err(e); },
            };
            if text_eq(tk, "1") { 2 } else { 1 }
        } else {
            0
        };
        let mut stop = String::from_str("window.arexiboGui.jsStopShell(");
        push_int(&mut stop, kill as i128);
        stop.append(");");
        Ok((start, stop))
    }
}

/// Whether an optional text is `Some(t)`.
fn opt_text_is(o: Option<&str>, t: &str) -> (b: bool)
    ensures
        b == opt_is(o, t@),
{
    match o {
        Some(v) => text_eq(v, t),
        None => false,
    }
}

/// Writes an iframe showing the media's own document.
fn write_local_frame(out: &mut String, rid: i32, mid: i32, g: Geom)
    ensures
        final(out)@ == old(out)@ + local_frame_html(rid, mid, g),
{
    let ghost before = out@;
    push_media_tag(out, "iframe", rid, mid);
    out.append(" src='");
    push_int(out, mid as i128);
    out.append(".html?w=");
    push_int(out, g.2 as i128);
    out.append("&h=");
    push_int(out, g.3 as i128);
    out.append("' style='");
    push_box(out, g);
    out.append("'></iframe>\n");
    assert(out@ == before + local_frame_html(rid, mid, g));
}

/// Writes an iframe showing `src`.
fn write_frame(out: &mut String, rid: i32, mid: i32, src: &str, g: Geom)
    ensures
        final(out)@ == old(out)@ + frame_html(rid, mid, src@, g),
{
    let ghost before = out@;
    push_media_tag(out, "iframe", rid, mid);
    out.append(" src='");
    out.append(src);
    out.append("' style='");
    push_box(out, g);
    out.append("'></iframe>\n");
    assert(out@ == before + frame_html(rid, mid, src@, g));
}

/// Writes an image showing `src`.
fn write_image(out: &mut String, rid: i32, mid: i32, src: &str, g: Geom, opts: &XmlNode)
    ensures
        final(out)@ == old(out)@ + image_html(rid, mid, src@, g, *opts),
{
    let ghost before = out@;
    push_media_tag(out, "img", rid, mid);
    out.append(" src='");
    out.append(src);
    out.append("' style='");
    push_box(out, g);
    out.append(object_fit(opts));
    out.append(object_pos(opts));
    out.append("'>\n");
    assert(out@ == before + image_html(rid, mid, src@, g, *opts));
}

/// Writes a video showing `src`.
fn write_video(out: &mut String, rid: i32, mid: i32, src: &str, g: Geom, opts: &XmlNode)
    ensures
        final(out)@ == old(out)@ + video_html(rid, mid, src@, g, *opts),
{
    let mute = match opts.find("mute") {
        Some(m) => text_eq(m.text(), "1"),
        None => false,
    };
    let ghost before = out@;
    push_media_tag(out, "video", rid, mid);
    out.append(" src='");
    out.append(src);
    out.append("' ");
    out.append(if mute { "muted" } else { "" });
    out.append(" style='");
    push_box(out, g);
    out.append(object_fit(opts));
    out.append(object_pos(opts));
    out.append("'></video>\n");
    assert(out@ == before + video_html(rid, mid, src@, g, *opts));
}

/// Writes an empty box for a shell command.
fn write_div(out: &mut String, rid: i32, mid: i32, g: Geom)
    ensures
        final(out)@ == old(out)@ + div_html(rid, mid, g),
{
    let ghost before = out@;
    push_media_tag(out, "div", rid, mid);
    out.append(" style='");
    push_box(out, g);
    out.append("'></div>\n");
    assert(out@ == before + div_html(rid, mid, g));
}

/// Translates a `media` element of region `rid` with geometry `g`, writing
/// its element to `out`.
fn write_media(out: &mut String, rid: i32, g: Geom, media: &XmlNode) -> (r: Result<Option<MediaInfo>, FieldError>)
    ensures
        final(out)@ == old(out)@ + media_of(rid, g, *media).0,
        match r {
            Ok(Some(m)) => media_of(rid, g, *media).1 == Ok::<Option<MediaView>, FieldError>(Some(m@)),
            Ok(None) => media_of(rid, g, *media).1 == Ok::<Option<MediaView>, FieldError>(None),
            Err(e) => media_of(rid, g, *media).1 == Err::<Option<MediaView>, FieldError>(e),
        },
{
    let ghost start = out@;
    let mid = match media.parse_attr_i32("id") {
        Ok(v) => v,
        Err(e) => {
            assert(out@ =~= start + Seq::<char>::empty());
            return Err(e);
        },
    };
    let opts = match media.find("options") {
        Some(o) => o,
        None => {
            assert(out@ =~= start + Seq::<char>::empty());
            return Err(FieldError::MissingChild("options"));
        },
    };
    let secs = match parse_i32(media.def_attr("duration", "")) {
        Some(v) => v,
        None => 10,
    };
    let mut duration = String::from_str("() => ");
    push_int(&mut duration, secs as i128);
    let mut add_start = String::new();
    let mut add_stop = String::new();
    let trans_in = read_transition(opts, "transIn", "transInDuration", "transInDirection");
    let trans_out = read_transition(opts, "transOut", "transOutDuration", "transOutDirection");

    out.append("  <!-- media ");
    push_int(out, mid as i128);
    out.append(" -->\n");
    let ghost head = "  <!-- media "@ + dec(mid) + " -->\n"@;
    assert(out@ == start + head);

    let typ = media.get_attr("type");
    if opt_text_is(media.get_attr("render"), "html") || opt_text_is(typ, "text") || opt_text_is(typ, "ticker") {
        write_local_frame(out, rid, mid, g);
    } else if opt_text_is(typ, "webpage") {
        let uri = match opts.req_child("uri") {
            Ok(u) => u,
            Err(e) => { return Err(e); },
        };
        let url = percent_decode(uri);
        write_frame(out, rid, mid, url.as_str(), g);
    } else if opt_text_is(typ, "pdf") {
        let uri = match opts.req_child("uri") {
            Ok(u) => u,
            Err(e) => { return Err(e); },
        };
        write_frame(out, rid, mid, uri, g);
    } else if opt_text_is(typ, "image") {
        let uri = match opts.req_child("uri") {
            Ok(u) => u,
            Err(e) => { return Err(e); },
        };
        write_image(out, rid, mid, uri, g, opts);
    } else if opt_text_is(typ, "video") || opt_text_is(typ, "localvideo") {
        let uri = match opts.req_child("uri") {
            Ok(u) => u,
            Err(e) => { return Err(e); },
        };
        let url = percent_decode(uri);
        write_video(out, rid, mid, url.as_str(), g, opts);
        add_start = String::from_str("document.getElementById('m");
        push_int(&mut add_start, mid as i128);
        add_start.append("').play();");
        duration = String::from_str("() => document.getElementById('m");
        push_int(&mut duration, mid as i128);
        duration.append("').duration");
    } else if opt_text_is(typ, "shellcommand") {
        write_div(out, rid, mid, g);
        match read_shell_actions(opts) {
            Ok((a, b)) => {
                add_start = a;
                add_stop = b;
            },
            Err(e) => { return Err(e); },
        }
    } else {
        return Ok(None);
    }
    Ok(Some(MediaInfo { mid, duration, add_start, add_stop, trans_in, trans_out }))
}

/// The media children among `nodes` translated in turn in region `rid`: the
/// text written and the items translated, in order.
pub open spec fn medias_of(rid: i32, g: Geom, nodes: Seq<XmlNode>) -> (Seq<char>, Seq<MediaView>)
    decreases nodes.len(),
{
    if nodes.len() == 0 {
        (Seq::empty(), Seq::empty())
    } else {
        let prev = medias_of(rid, g, nodes.drop_last());
        if has_tag(nodes.last(), "media"@) {
            let m = media_of(rid, g, nodes.last());
            (
                prev.0 + m.0,
                match m.1 {
                    Ok(Some(v)) => prev.1.push(v),
                    _ => prev.1,
                },
            )
        } else {
            prev
        }
    }
}

/// The script entry of a media item: a function that shows it, one that
/// hides it (with its exit transition where the region holds more than one
/// item), and its duration.
pub open spec fn media_entry_js(m: MediaView, multi: bool) -> Seq<char> {
    "    [function() {\n"@ + "      var el = document.getElementById('m"@ + dec(m.mid) + "');\n"@
        + "      el.style.visibility = 'visible';\n"@ + "      "@ + m.add_start + "\n"@
        + "      var region = el.parentElement;\n"@ + "      window.arexibo.transitions.apply(el, "@
        + transition_js(m.trans_in) + ", true, region.offsetWidth, region.offsetHeight);\n"@
        + "    }, function(callback) {\n"@ + "      var el = document.getElementById('m"@ + dec(m.mid)
        + "');\n"@ + "      "@ + m.add_stop + "\n"@ + (if multi {
        "      var region = el.parentElement;\n"@ + "      window.arexibo.transitions.apply(el, "@
            + transition_js(m.trans_out)
            + ", false, region.offsetWidth, region.offsetHeight, function() {\n"@
            + "        el.style.visibility = 'hidden';\n"@ + "        if (callback) callback();\n"@
            + "      });\n"@
    } else {
        "      if (callback) callback();\n"@
    }) + "    }, "@ + m.duration + "],\n"@
}

/// The script entries of the media items, in order.
pub open spec fn media_entries(ms: Seq<MediaView>, multi: bool) -> Seq<char>
    decreases ms.len(),
{
    if ms.len() == 0 {
        Seq::empty()
    } else {
        media_entries(ms.drop_last(), multi) + media_entry_js(ms.last(), multi)
    }
}

/// The script that registers region `rid` with its media items.
pub open spec fn region_script(rid: i32, ms: Seq<MediaView>) -> Seq<char> {
    "<script type='text/javascript'>\n"@ + "window.arexibo.regions["@ + dec(rid) + "] = {\n"@
        + "  done: false,\n"@ + "  cur: null,\n"@ + "  timeoutid: null,\n"@ + "  total: "@
        + decimal_text(ms.len() as int) + ",\n"@ + "  media: [\n"@ + media_entries(ms, ms.len() > 1)
        + "  ],\n"@ + "};\n</script>\n"@
}

/// The comment and optional z-index style that open region `rid`.
pub open spec fn region_head(rid: i32, region: XmlNode) -> Seq<char> {
    "<!-- region "@ + dec(rid) + " -->\n"@ + match attr_of(region, "zindex"@) {
        Some(z) => "<style type='text/css'> .r"@ + dec(rid) + " { z-index: "@ + z + "; } </style>\n"@,
        None => Seq::empty(),
    }
}

/// A `region` element translated: the text written, and its id where it holds
/// a media item that was translated (a region without one is not started).
/// A fault in the id or geometry writes nothing; faults in media only drop
/// those items.
pub open spec fn region_of(region: XmlNode) -> (Seq<char>, Result<Option<i32>, FieldError>) {
    match region_frame(region) {
        Err(e) => (Seq::empty(), Err(e)),
        Ok((rid, g)) => {
            let ms = medias_of(rid, g, region.children@);
            if ms.1.len() == 0 {
                (region_head(rid, region) + ms.0, Ok(None))
            } else {
                (region_head(rid, region) + ms.0 + region_script(rid, ms.1), Ok(Some(rid)))
            }
        },
    }
}

/// The values of translated media items.
pub open spec fn media_views(ms: Seq<MediaInfo>) -> Seq<MediaView> {
    ms.map_values(|m: MediaInfo| m@)
}

/// Writes the script entry of a media item.
fn write_media_entry(out: &mut String, m: &MediaInfo, multi: bool)
    ensures
        final(out)@ == old(out)@ + media_entry_js(m@, multi),
{
    broadcast use crate::text::lemma_concat_assoc;

    let ghost before = out@;
    let trans_in_js = m.trans_in.to_js();
    let trans_out_js = m.trans_out.to_js();
    out.append("    [function() {\n");
    out.append("      var el = document.getElementById('m");
    push_int(out, m.mid as i128);
    out.append("');\n");
    out.append("      el.style.visibility = 'visible';\n");
    out.append("      ");
    out.append(m.add_start.as_str());
    out.append("\n");
    out.append("      var region = el.parentElement;\n");
    out.append("      window.arexibo.transitions.apply(el, ");
    out.append(trans_in_js.as_str());
    out.append(", true, region.offsetWidth, region.offsetHeight);\n");
    out.append("    }, function(callback) {\n");
    out.append("      var el = document.getElementById('m");
    push_int(out, m.mid as i128);
    out.append("');\n");
    out.append("      ");
    out.append(m.add_stop.as_str());
    out.append("\n");
    if multi {
        out.append("      var region = el.parentElement;\n");
        out.append("      window.arexibo.transitions.apply(el, ");
        out.append(trans_out_js.as_str());
        out.append(", false, region.offsetWidth, region.offsetHeight, function() {\n");
        out.append("        el.style.visibility = 'hidden';\n");
        out.append("        if (callback) callback();\n");
        out.append("      });\n");
    } else {
        out.append("      if (callback) callback();\n");
    }
    out.append("    }, ");
    out.append(m.duration.as_str());
    out.append("],\n");
    assert(out@ == before + media_entry_js(m@, multi));
}

/// Writes the script that registers region `rid` with its media items.
fn write_region_script(out: &mut String, rid: i32, seq: &Vec<MediaInfo>)
    ensures
        final(out)@ == old(out)@ + region_script(rid, media_views(seq@)),
{
    broadcast use crate::text::lemma_concat_assoc;

    let ghost before = out@;
    let ghost ms = media_views(seq@);
    let nitems = seq.len();
    let multi = nitems > 1;
    out.append("<script type='text/javascript'>\n");
    out.append("window.arexibo.regions[");
    push_int(out, rid as i128);
    out.append("] = {\n");
    out.append("  done: false,\n");
    out.append("  cur: null,\n");
    out.append("  timeoutid: null,\n");
    out.append("  total: ");
    push_int(out, nitems as i128);
    out.append(",\n");
    out.append("  media: [\n");
    let ghost opened = out@;
    let mut k: usize = 0;
    assert(ms.take(0) =~= Seq::<MediaView>::empty());
    assert(opened =~= opened + media_entries(ms.take(0), multi));
    while k < nitems
        invariant
            nitems == seq@.len(),
            ms == media_views(seq@),
            multi == (nitems > 1),
            k <= nitems,
            out@ == opened + media_entries(ms.take(k as int), multi),
        decreases nitems - k,
    {
        assert(ms.take(k + 1).drop_last() =~= ms.take(k as int));
        assert(ms.take(k + 1).last() == seq@[k as int]@);
        write_media_entry(out, &seq[k], multi);
        assert(out@ == opened + media_entries(ms.take(k + 1), multi));
        k = k + 1;
    }
    assert(ms.take(nitems as int) =~= ms);
    out.append("  ],\n");
    out.append("};\n</script>\n");
    assert(out@ == before + region_script(rid, ms));
}

/// The id and geometry of a region, read in the order id, left, top, width,
/// height.
pub open spec fn region_frame(region: XmlNode) -> Result<(i32, Geom), FieldError> {
    match attr_i32(region, "id") {
        Err(e) => Err(e),
        Ok(rid) => match attr_i32(region, "left") {
            Err(e) => Err(e),
            Ok(x) => match attr_i32(region, "top") {
                Err(e) => Err(e),
                Ok(y) => match attr_i32(region, "width") {
                    Err(e) => Err(e),
                    Ok(w) => match attr_i32(region, "height") {
                        Err(e) => Err(e),
                        Ok(h) => Ok((rid, (x, y, w, h))),
                    },
                },
            },
        },
    }
}

/// Reads the id and geometry of a region.
fn read_region_frame(region: &XmlNode) -> (r: Result<(i32, Geom), FieldError>)
    ensures
        r == region_frame(*region),
{
    let rid = match region.parse_attr_i32("id") {
        Ok(v) => v,
        Err(e) => { return Err(e); },
    };
    let x = match region.parse_attr_i32("left") {
        Ok(v) => v,
        Err(e) => { return Err(e); },
    };
    let y = match region.parse_attr_i32("top") {
        Ok(v) => v,
        Err(e) => { return Err(e); },
    };
    let w = match region.parse_attr_i32("width") {
        Ok(v) => v,
        Err(e) => { return Err(e); },
    };
    let h = match region.parse_attr_i32("height") {
        Ok(v) => v,
        Err(e) => { return Err(e); },
    };
    Ok((rid, (x, y, w, h)))
}

/// Writes the comment and optional z-index style that open a region.
fn write_region_head(out: &mut String, rid: i32, region: &XmlNode)
    ensures
        final(out)@ == old(out)@ + region_head(rid, *region),
{
    broadcast use crate::text::lemma_concat_assoc;

    let ghost before = out@;
    out.append("<!-- region ");
    push_int(out, rid as i128);
    out.append(" -->\n");
    let ghost opened = out@;
    match region.get_attr("zindex") {
        Some(z) => {
            out.append("<style type='text/css'> .r");
            push_int(out, rid as i128);
            out.append(" { z-index: ");
            out.append(z);
            out.append("; } </style>\n");
            assert(out@ == opened + ("<style type='text/css'> .r"@ + dec(rid) + " { z-index: "@ + z@
                + "; } </style>\n"@));
        },
        None => {
            assert(out@ =~= opened + Seq::<char>::empty());
        },
    }
}

/// Translates the media children of a region in turn.
fn write_region_media(out: &mut String, rid: i32, g: Geom, nodes: &Vec<XmlNode>) -> (r: Vec<MediaInfo>)
    ensures
        final(out)@ == old(out)@ + medias_of(rid, g, nodes@).0,
        media_views(r@) == medias_of(rid, g, nodes@).1,
{
    let ghost start = out@;
    let mut sequence: Vec<MediaInfo> = Vec::new();
    let mut i: usize = 0;
    assert(nodes@.take(0) =~= Seq::<XmlNode>::empty());
    assert(media_views(sequence@) =~= Seq::<MediaView>::empty());
    assert(start =~= start + Seq::<char>::empty());
    while i < nodes.len()
        invariant
            i <= nodes@.len(),
            out@ == start + medias_of(rid, g, nodes@.take(i as int)).0,
            media_views(sequence@) == medias_of(rid, g, nodes@.take(i as int)).1,
        decreases nodes@.len() - i,
    {
        let n = &nodes[i];
        assert(nodes@.take(i + 1).drop_last() =~= nodes@.take(i as int));
        assert(nodes@.take(i + 1).last() == *n);
        if n.has_tag("media") {
            match write_media(out, rid, g, n) {
                Ok(Some(m)) => {
                    let ghost vs = sequence@;
                    sequence.push(m);
                    assert(media_views(sequence@) =~= media_views(vs).push(m@));
                },
                _ => {},
            }
            assert(out@ =~= start + medias_of(rid, g, nodes@.take(i + 1)).0);
        }
        i = i + 1;
    }
    assert(nodes@.take(i as int) =~= nodes@);
    sequence
}

/// Translates a `region` element, writing its media elements and, where some
/// were translated, the script that registers it.
fn write_region(out: &mut String, region: &XmlNode) -> (r: Result<Option<i32>, FieldError>)
    ensures
        final(out)@ == old(out)@ + region_of(*region).0,
        match r {
            Ok(o) => region_of(*region).1 == Ok::<Option<i32>, FieldError>(o),
            Err(e) => region_of(*region).1 == Err::<Option<i32>, FieldError>(e),
        },
{
    let ghost start = out@;
    let (rid, g) = match read_region_frame(region) {
        Ok(f) => f,
        Err(e) => {
            assert(out@ =~= start + Seq::<char>::empty());
            return Err(e);
        },
    };
    write_region_head(out, rid, region);
    let sequence = write_region_media(out, rid, g, &region.children);
    if sequence.len() == 0 {
        assert(out@ =~= start + region_of(*region).0);
        return Ok(None);
    }
    write_region_script(out, rid, &sequence);
    assert(out@ =~= start + region_of(*region).0);
    Ok(Some(rid))
}

/// Why an action could not be translated.
#[derive(Debug, Clone, Copy)]
pub enum ActionError {
    /// An attribute that is missing or does not parse as a number.
    Field(FieldError),
    /// A `navLayout` action names a layout code that the code map lacks.
    UnknownLayoutCode,
}

/// The layout id of the first entry of `map` whose code is `code`.
pub open spec fn code_lookup(map: Seq<(String, LayoutId)>, code: Seq<char>) -> Option<LayoutId>
    decreases map.len(),
{
    if map.len() == 0 {
        None
    } else if map[0].0@ == code {
        Some(map[0].1)
    } else {
        code_lookup(map.drop_first(), code)
    }
}

/// The script that registers a webhook trigger.
pub open spec fn trigger_js(
    code: Seq<char>,
    action: Seq<char>,
    target: Seq<char>,
    targetid: i64,
    layoutid: LayoutId,
) -> Seq<char> {
    "window.arexibo.triggers["@ + debug_quoted_text(code) + "] = {\n"@ + "  action: "@
        + debug_quoted_text(action) + ",\n"@ + "  target: "@ + debug_quoted_text(target) + ",\n"@
        + "  targetid: "@ + decimal_text(targetid as int) + ",\n"@ + "  layoutid: "@ + decimal_text(
        layoutid as int,
    ) + "\n"@ + "};\n"@
}

/// An `action` element translated: the text written, which is empty but for
/// a `webhook` trigger. The attributes are read in the order `triggerType`,
/// `actionType`, `target`, `targetId`; a `navLayout` action looks its
/// `layoutCode` up in `map` (other actions target layout 0).
pub open spec fn action_of(el: XmlNode, map: Seq<(String, LayoutId)>) -> Result<Seq<char>, ActionError> {
    match attr_of(el, "triggerType"@) {
        None => Err(ActionError::Field(FieldError::MissingAttribute("triggerType"))),
        Some(typ) => match attr_of(el, "actionType"@) {
            None => Err(ActionError::Field(FieldError::MissingAttribute("actionType"))),
            Some(action) => match attr_of(el, "target"@) {
                None => Err(ActionError::Field(FieldError::MissingAttribute("target"))),
                Some(target) => match attr_i64(el, "targetId") {
                    Err(e) => Err(ActionError::Field(e)),
                    Ok(targetid) => {
                        let code = attr_or(el, "triggerCode"@, "<not set>"@);
                        let layoutcode = attr_or(el, "layoutCode"@, "<not set>"@);
                        let layoutid = if action == "navLayout"@ {
                            code_lookup(map, layoutcode)
                        } else {
                            Some(0i64)
                        };
                        match layoutid {
                            None => Err(ActionError::UnknownLayoutCode),
                            Some(lid) => if typ == "webhook"@ {
                                Ok(trigger_js(code, action, target, targetid, lid))
                            } else {
                                Ok(Seq::empty())
                            },
                        }
                    },
                },
            },
        },
    }
}

/// The actions among `nodes` translated in turn; one that cannot be
/// translated writes nothing.
pub open spec fn actions_of(nodes: Seq<XmlNode>, map: Seq<(String, LayoutId)>) -> Seq<char>
    decreases nodes.len(),
{
    if nodes.len() == 0 {
        Seq::empty()
    } else {
        let prev = actions_of(nodes.drop_last(), map);
        if has_tag(nodes.last(), "action"@) {
            match action_of(nodes.last(), map) {
                Ok(t) => prev + t,
                Err(_) => prev,
            }
        } else {
            prev
        }
    }
}

/// The regions among `nodes` translated in turn: the text written and the ids
/// of the regions that will be started.
pub open spec fn regions_of(nodes: Seq<XmlNode>) -> (Seq<char>, Seq<i32>)
    decreases nodes.len(),
{
    if nodes.len() == 0 {
        (Seq::empty(), Seq::empty())
    } else {
        let prev = regions_of(nodes.drop_last());
        if has_tag(nodes.last(), "region"@) {
            let r = region_of(nodes.last());
            (
                prev.0 + r.0,
                match r.1 {
                    Ok(Some(rid)) => prev.1.push(rid),
                    _ => prev.1,
                },
            )
        } else {
            prev
        }
    }
}

/// The document head: the version, the page script with the layout's id and
/// size, and the style sheet with the optional background image and colour.
pub open spec fn header_html(id: LayoutId, w: i32, h: i32, tree: XmlNode) -> Seq<char> {
    "<!DOCTYPE html>\n<!-- VERSION="@ + decimal_text(TRANSLATOR_VERSION as int) + header_tail(id, w, h, tree)
}

/// The document head after the version number.
pub open spec fn header_tail(id: LayoutId, w: i32, h: i32, tree: XmlNode) -> Seq<char> {
    " -->\n"@ + "<html><head>\n"@ + "<meta charset='utf-8'>\n"@
        + "<script src='qrc:///qtwebchannel/qwebchannel.js'></script>\n"@
        + "<script type='text/javascript'>"@ + SCRIPT@ + "window.arexibo.id = "@ + decimal_text(id as int)
        + ";\nwindow.arexibo.width = "@ + dec(w) + ";\nwindow.arexibo.height = "@ + dec(h)
        + ";\n</script>\n"@ + "<style type='text/css'>"@ + LAYOUT_CSS@ + "\n"@ + match attr_of(
        tree,
        "background"@,
    ) {
        Some(f) => "body { background-image: url('"@ + f + "'); background-size: 100vw 100vh; }\n"@,
        None => Seq::empty(),
    } + match attr_of(tree, "bgcolor"@) {
        Some(c) => "body { background-color: "@ + c + "; }\n"@,
        None => Seq::empty(),
    } + "</style>\n"@ + "</head><body>\n"@
}

/// The layout's size, read from its `width` and `height`, and its head.
pub open spec fn header_of(id: LayoutId, tree: XmlNode) -> Result<((i32, i32), Seq<char>), FieldError> {
    match attr_i32(tree, "width") {
        Err(e) => Err(e),
        Ok(w) => match attr_i32(tree, "height") {
            Err(e) => Err(e),
            Ok(h) => Ok(((w, h), header_html(id, w, h, tree))),
        },
    }
}

/// The calls that start the first media item of each region, in order.
pub open spec fn region_starts(rids: Seq<i32>) -> Seq<char>
    decreases rids.len(),
{
    if rids.len() == 0 {
        Seq::empty()
    } else {
        region_starts(rids.drop_last()) + "  window.arexibo.region_switch("@ + dec(rids.last())
            + ", 0, true);\n"@
    }
}

/// The end of the document, which starts the regions once the page has loaded.
pub open spec fn footer_html(rids: Seq<i32>) -> Seq<char> {
    "<script type='text/javascript'>\nwindow.addEventListener('load', function() {\n"@ + region_starts(rids)
        + "});\n</script>\n"@ + "</body></html>\n"@
}

/// A layout document translated: its size and the HTML document, made of the
/// head, the regions, a script with the actions, and the end that starts the
/// regions that hold media. Only a missing or invalid size fails it.
pub open spec fn translation(id: LayoutId, tree: XmlNode, map: Seq<(String, LayoutId)>) -> Result<((i32, i32), Seq<char>), FieldError> {
    match header_of(id, tree) {
        Err(e) => Err(e),
        Ok((size, head)) => {
            let rs = regions_of(tree.children@);
            Ok(
                (
                    size,
                    head + rs.0 + "<script type='text/javascript'>\n"@ + actions_of(tree.children@, map)
                        + "</script>\n"@ + footer_html(rs.1),
                ),
            )
        },
    }
}

/// Looks a layout code up in the code map.
fn lookup_code(map: &Vec<(String, LayoutId)>, code: &str) -> (r: Option<LayoutId>)
    ensures
        r == code_lookup(map@, code@),
{
    let mut i: usize = 0;
    assert(map@.skip(0) =~= map@);
    while i < map.len()
        invariant
            i <= map@.len(),
            code_lookup(map@, code@) == code_lookup(map@.skip(i as int), code@),
        decreases map@.len() - i,
    {
        assert(map@.skip(i as int)[0] == map@[i as int]);
        assert(map@.skip(i as int).drop_first() =~= map@.skip(i + 1));
        if text_eq(map[i].0.as_str(), code) {
            return Some(map[i].1);
        }
        i = i + 1;
    }
    assert(map@.skip(i as int).len() == 0);
    None
}

/// Writes the script that registers a webhook trigger.
fn write_trigger(out: &mut String, code: &str, action: &str, target: &str, targetid: i64, layoutid: LayoutId)
    ensures
        final(out)@ == old(out)@ + trigger_js(code@, action@, target@, targetid, layoutid),
{
    broadcast use crate::text::lemma_concat_assoc;

    out.append("window.arexibo.triggers[");
    push_quoted(out, code);
    out.append("] = {\n");
    out.append("  action: ");
    push_quoted(out, action);
    out.append(",\n");
    out.append("  target: ");
    push_quoted(out, target);
    out.append(",\n");
    out.append("  targetid: ");
    push_int(out, targetid as i128);
    out.append(",\n");
    out.append("  layoutid: ");
    push_int(out, layoutid as i128);
    out.append("\n");
    out.append("};\n");
}

/// Translates an `action` element.
fn write_action(out: &mut String, el: &XmlNode, map: &Vec<(String, LayoutId)>) -> (r: Result<(), ActionError>)
    ensures
        match r {
            Ok(()) => action_of(*el, map@) matches Ok(t) && final(out)@ == old(out)@ + t,
            Err(e) => action_of(*el, map@) == Err::<Seq<char>, ActionError>(e) && final(out)@ == old(out)@,
        },
{
    let typ = match el.req_attr("triggerType") {
        Ok(v) => v,
        Err(e) => { return Err(ActionError::Field(e)); },
    };
    let action = match el.req_attr("actionType") {
        Ok(v) => v,
        Err(e) => { return Err(ActionError::Field(e)); },
    };
    let target = match el.req_attr("target") {
        Ok(v) => v,
        Err(e) => { return Err(ActionError::Field(e)); },
    };
    let targetid = match el.parse_attr_i64("targetId") {
        Ok(v) => v,
        Err(e) => { return Err(ActionError::Field(e)); },
    };
    let code = el.def_attr("triggerCode", "<not set>");
    let layoutcode = el.def_attr("layoutCode", "<not set>");
    let mut layoutid: LayoutId = 0;
    if text_eq(action, "navLayout") {
        layoutid = match lookup_code(map, layoutcode) {
            Some(v) => v,
            None => { return Err(ActionError::UnknownLayoutCode); },
        };
    }
    if text_eq(typ, "webhook") {
        write_trigger(out, code, action, target, targetid, layoutid);
    } else {
        assert(out@ =~= old(out)@ + Seq::<char>::empty());
    }
    Ok(())
}

/// Writes the document head and gives the layout's size.
fn write_header(out: &mut String, id: LayoutId, el: &XmlNode) -> (r: Result<(i32, i32), FieldError>)
    ensures
        match r {
            Ok(size) => header_of(id, *el) matches Ok((sz, t)) && sz == size && final(out)@ == old(out)@ + t,
            Err(e) => header_of(id, *el) == Err::<((i32, i32), Seq<char>), FieldError>(e) && final(out)@ == old(out)@,
        },
{
    broadcast use crate::text::lemma_concat_assoc;

    let w = match el.parse_attr_i32("width") {
        Ok(v) => v,
        Err(e) => { return Err(e); },
    };
    let h = match el.parse_attr_i32("height") {
        Ok(v) => v,
        Err(e) => { return Err(e); },
    };
    out.append("<!DOCTYPE html>\n<!-- VERSION=");
    push_int(out, TRANSLATOR_VERSION as i128);
    out.append(" -->\n");
    out.append("<html><head>\n");
    out.append("<meta charset='utf-8'>\n");
    out.append("<script src='qrc:///qtwebchannel/qwebchannel.js'></script>\n");
    out.append("<script type='text/javascript'>");
    out.append(SCRIPT);
    out.append("window.arexibo.id = ");
    push_int(out, id as i128);
    out.append(";\nwindow.arexibo.width = ");
    push_int(out, w as i128);
    out.append(";\nwindow.arexibo.height = ");
    push_int(out, h as i128);
    out.append(";\n</script>\n");
    out.append("<style type='text/css'>");
    out.append(LAYOUT_CSS);
    out.append("\n");
    match el.get_attr("background") {
        Some(file) => {
            out.append("body { background-image: url('");
            out.append(file);
            out.append("'); background-size: 100vw 100vh; }\n");
        },
        None => {
            assert(out@ =~= out@ + Seq::<char>::empty());
        },
    }
    match el.get_attr("bgcolor") {
        Some(color) => {
            out.append("body { background-color: ");
            out.append(color);
            out.append("; }\n");
        },
        None => {
            assert(out@ =~= out@ + Seq::<char>::empty());
        },
    }
    out.append("</style>\n");
    out.append("</head><body>\n");
    Ok((w, h))
}

/// Writes the end of the document, which starts the regions `rids`.
fn write_footer(out: &mut String, rids: &Vec<i32>)
    ensures
        final(out)@ == old(out)@ + footer_html(rids@),
{
    broadcast use crate::text::lemma_concat_assoc;

    out.append("<script type='text/javascript'>\nwindow.addEventListener('load', function() {\n");
    let ghost opened = out@;
    let mut i: usize = 0;
    assert(rids@.take(0) =~= Seq::<i32>::empty());
    assert(opened =~= opened + region_starts(rids@.take(0)));
    while i < rids.len()
        invariant
            i <= rids@.len(),
            out@ == opened + region_starts(rids@.take(i as int)),
        decreases rids@.len() - i,
    {
        assert(rids@.take(i + 1).drop_last() =~= rids@.take(i as int));
        assert(rids@.take(i + 1).last() == rids@[i as int]);
        out.append("  window.arexibo.region_switch(");
        push_int(out, rids[i] as i128);
        out.append(", 0, true);\n");
        i = i + 1;
    }
    assert(rids@.take(i as int) =~= rids@);
    out.append("});\n</script>\n");
    out.append("</body></html>\n");
}

/// Translates the regions among `nodes` in turn.
fn write_regions(out: &mut String, nodes: &Vec<XmlNode>) -> (r: Vec<i32>)
    ensures
        final(out)@ == old(out)@ + regions_of(nodes@).0,
        r@ == regions_of(nodes@).1,
{
    let ghost start = out@;
    let mut rids: Vec<i32> = Vec::new();
    let mut i: usize = 0;
    assert(nodes@.take(0) =~= Seq::<XmlNode>::empty());
    assert(start =~= start + Seq::<char>::empty());
    while i < nodes.len()
        invariant
            i <= nodes@.len(),
            out@ == start + regions_of(nodes@.take(i as int)).0,
            rids@ == regions_of(nodes@.take(i as int)).1,
        decreases nodes@.len() - i,
    {
        let n = &nodes[i];
        assert(nodes@.take(i + 1).drop_last() =~= nodes@.take(i as int));
        assert(nodes@.take(i + 1).last() == *n);
        if n.has_tag("region") {
            match write_region(out, n) {
                Ok(Some(rid)) => {
                    rids.push(rid);
                },
                _ => {},
            }
            assert(out@ =~= start + regions_of(nodes@.take(i + 1)).0);
        }
        i = i + 1;
    }
    assert(nodes@.take(i as int) =~= nodes@);
    rids
}

/// Translates the actions among `nodes` in turn.
fn write_actions(out: &mut String, nodes: &Vec<XmlNode>, map: &Vec<(String, LayoutId)>)
    ensures
        final(out)@ == old(out)@ + actions_of(nodes@, map@),
{
    let ghost start = out@;
    let mut i: usize = 0;
    assert(nodes@.take(0) =~= Seq::<XmlNode>::empty());
    assert(start =~= start + Seq::<char>::empty());
    while i < nodes.len()
        invariant
            i <= nodes@.len(),
            out@ == start + actions_of(nodes@.take(i as int), map@),
        decreases nodes@.len() - i,
    {
        let n = &nodes[i];
        assert(nodes@.take(i + 1).drop_last() =~= nodes@.take(i as int));
        assert(nodes@.take(i + 1).last() == *n);
        if n.has_tag("action") {
            let _ = write_action(out, n, map);
            assert(out@ =~= start + actions_of(nodes@.take(i + 1), map@));
        }
        i = i + 1;
    }
    assert(nodes@.take(i as int) =~= nodes@);
}

/// A translation fails exactly where the layout's width or height is missing
/// or not a number; faults anywhere else only leave parts out.
pub proof fn law_translation_fails_only_on_size(id: LayoutId, tree: XmlNode, map: Seq<(String, LayoutId)>)
    ensures
        translation(id, tree, map) is Err <==> (attr_i32(tree, "width") is Err || attr_i32(
            tree,
            "height",
        ) is Err),
        translation(id, tree, map) matches Ok((size, _)) ==> attr_i32(tree, "width") == Ok::<
            i32,
            FieldError,
        >(size.0) && attr_i32(tree, "height") == Ok::<i32, FieldError>(size.1),
{
}

/// Every translated document starts with its doctype and the translator's
/// version, and ends by closing the body and the document.
pub proof fn law_document_frame(id: LayoutId, tree: XmlNode, map: Seq<(String, LayoutId)>)
    requires
        translation(id, tree, map) is Ok,
    ensures
        exists|body: Seq<char>|
            translation(id, tree, map)->Ok_0.1 == "<!DOCTYPE html>\n<!-- VERSION="@ + decimal_text(
                TRANSLATOR_VERSION as int,
            ) + body + "</body></html>\n"@,
{
    broadcast use crate::text::lemma_concat_assoc;

    let w = attr_i32(tree, "width")->Ok_0;
    let h = attr_i32(tree, "height")->Ok_0;
    let rs = regions_of(tree.children@);
    let first = "<!DOCTYPE html>\n<!-- VERSION="@ + decimal_text(TRANSLATOR_VERSION as int);
    let tail = "<script type='text/javascript'>\nwindow.addEventListener('load', function() {\n"@
        + region_starts(rs.1) + "});\n</script>\n"@;
    let body = header_tail(id, w, h, tree) + rs.0 + "<script type='text/javascript'>\n"@ + actions_of(
        tree.children@,
        map,
    ) + "</script>\n"@ + tail;
    assert(translation(id, tree, map)->Ok_0.1 == first + body + "</body></html>\n"@);
}

/// Whether `n` is a `region` element with id `rid` whose geometry was read
/// and one of whose media items was translated.
pub open spec fn region_with_media(n: XmlNode, rid: i32) -> bool {
    has_tag(n, "region"@) && match region_frame(n) {
        Ok((r, g)) => r == rid && medias_of(r, g, n.children@).1.len() > 0,
        Err(_) => false,
    }
}

/// A region is started at load only where it was translated with at least
/// one media item: each started id is that of such a `region` child.
pub proof fn law_started_regions_hold_media(nodes: Seq<XmlNode>, k: int)
    requires
        0 <= k < regions_of(nodes).1.len(),
    ensures
        exists|j: int| 0 <= j < nodes.len() && region_with_media(#[trigger] nodes[j], regions_of(nodes).1[k]),
    decreases nodes.len(),
{
    let prev = nodes.drop_last();
    let p = regions_of(prev);
    lemma_regions_prefix(nodes);
    if k < p.1.len() {
        law_started_regions_hold_media(prev, k);
        let j = choose|j: int| 0 <= j < prev.len() && region_with_media(#[trigger] prev[j], regions_of(prev).1[k]);
        assert(prev[j] == nodes[j]);
        assert(region_with_media(nodes[j], regions_of(nodes).1[k]));
    } else {
        let j = nodes.len() - 1;
        assert(nodes[j] == nodes.last());
        assert(region_with_media(nodes[j], regions_of(nodes).1[k]));
    }
}

/// The started regions of `nodes` extend those of its prefix.
proof fn lemma_regions_prefix(nodes: Seq<XmlNode>)
    requires
        nodes.len() > 0,
    ensures
        regions_of(nodes.drop_last()).1 == regions_of(nodes).1.take(regions_of(nodes.drop_last()).1.len() as int),
        regions_of(nodes).1.len() > regions_of(nodes.drop_last()).1.len() ==> (
        has_tag(nodes.last(), "region"@) && region_of(nodes.last()).1 == Ok::<Option<i32>, FieldError>(
            Some(regions_of(nodes).1.last()),
        ) && regions_of(nodes).1.len() == regions_of(nodes.drop_last()).1.len() + 1),
{
    let p = regions_of(nodes.drop_last()).1;
    assert(p =~= regions_of(nodes).1.take(p.len() as int)) by {
        if has_tag(nodes.last(), "region"@) {
            match region_of(nodes.last()).1 {
                Ok(Some(rid)) => {
                    assert(regions_of(nodes).1 == p.push(rid));
                },
                _ => {},
            }
        }
    }
    if regions_of(nodes).1.len() > p.len() {
        assert(has_tag(nodes.last(), "region"@));
    }
}

/// The start line of a region holds its own place in the run of start lines.
proof fn lemma_region_starts_hold(rids: Seq<i32>, k: int)
    requires
        0 <= k < rids.len(),
    ensures
        exists|a: Seq<char>, b: Seq<char>|
            region_starts(rids) == a + ("  window.arexibo.region_switch("@ + decimal_text(rids[k] as int)
                + ", 0, true);\n"@) + b,
    decreases rids.len(),
{
    broadcast use crate::text::lemma_concat_assoc;

    let prev = rids.drop_last();
    let last_line = "  window.arexibo.region_switch("@ + dec(rids.last()) + ", 0, true);\n"@;
    if k < rids.len() - 1 {
        lemma_region_starts_hold(prev, k);
        assert(prev[k] == rids[k]);
        let (a, b) = choose|a: Seq<char>, b: Seq<char>|
            region_starts(prev) == a + ("  window.arexibo.region_switch("@ + decimal_text(prev[k] as int)
                + ", 0, true);\n"@) + b;
        assert(region_starts(rids) == a + ("  window.arexibo.region_switch("@ + decimal_text(rids[k] as int)
            + ", 0, true);\n"@) + (b + last_line));
    } else {
        assert(region_starts(rids) == region_starts(prev) + ("  window.arexibo.region_switch("@
            + decimal_text(rids[k] as int) + ", 0, true);\n"@) + Seq::<char>::empty());
    }
}

/// The load handler of a translated document starts every region that was
/// translated with media: for each such region id, the document holds the
/// line `  window.arexibo.region_switch(<id>, 0, true);`.
pub proof fn law_every_started_region_is_switched_on(
    id: LayoutId,
    tree: XmlNode,
    map: Seq<(String, LayoutId)>,
    k: int,
)
    requires
        translation(id, tree, map) is Ok,
        0 <= k < regions_of(tree.children@).1.len(),
    ensures
        exists|a: Seq<char>, b: Seq<char>|
            translation(id, tree, map)->Ok_0.1 == a + ("  window.arexibo.region_switch("@ + decimal_text(
                regions_of(tree.children@).1[k] as int,
            ) + ", 0, true);\n"@) + b,
{
    broadcast use crate::text::lemma_concat_assoc;

    let rs = regions_of(tree.children@);
    let head = header_of(id, tree)->Ok_0.1;
    lemma_region_starts_hold(rs.1, k);
    let (a, b) = choose|a: Seq<char>, b: Seq<char>|
        region_starts(rs.1) == a + ("  window.arexibo.region_switch("@ + decimal_text(rs.1[k] as int)
            + ", 0, true);\n"@) + b;
    let line = "  window.arexibo.region_switch("@ + decimal_text(rs.1[k] as int) + ", 0, true);\n"@;
    let pre = head + rs.0 + "<script type='text/javascript'>\n"@ + actions_of(tree.children@, map)
        + "</script>\n"@ + "<script type='text/javascript'>\nwindow.addEventListener('load', function() {\n"@;
    let post = b + "});\n</script>\n"@ + "</body></html>\n"@;
    assert(footer_html(rs.1) == "<script type='text/javascript'>\nwindow.addEventListener('load', function() {\n"@
        + (a + line + b) + "});\n</script>\n"@ + "</body></html>\n"@);
    assert(translation(id, tree, map)->Ok_0.1 == (pre + a) + line + post);
}

/// The two video type names differ from the other media type names.
proof fn lemma_video_types_differ()
    ensures
        "video"@ != "text"@ && "video"@ != "ticker"@ && "video"@ != "webpage"@ && "video"@ != "pdf"@
            && "video"@ != "image"@,
        "localvideo"@ != "text"@ && "localvideo"@ != "ticker"@ && "localvideo"@ != "webpage"@
            && "localvideo"@ != "pdf"@ && "localvideo"@ != "image"@,
{
    reveal_strlit("video");
    reveal_strlit("localvideo");
    reveal_strlit("text");
    reveal_strlit("ticker");
    reveal_strlit("webpage");
    reveal_strlit("pdf");
    reveal_strlit("image");
    assert("video"@.len() != "text"@.len());
    assert("video"@.len() != "ticker"@.len());
    assert("video"@.len() != "webpage"@.len());
    assert("video"@.len() != "pdf"@.len());
    assert("video"@[0] != "image"@[0]);
    assert("localvideo"@.len() != "text"@.len());
    assert("localvideo"@.len() != "ticker"@.len());
    assert("localvideo"@.len() != "webpage"@.len());
    assert("localvideo"@.len() != "pdf"@.len());
    assert("localvideo"@.len() != "image"@.len());
}

/// A media item of type `video` is translated exactly as one of type
/// `localvideo` that has the same id, options, render and duration.
pub proof fn law_video_is_translated_as_localvideo(rid: i32, g: Geom, m1: XmlNode, m2: XmlNode)
    requires
        attr_of(m1, "type"@) == Some("video"@),
        attr_of(m2, "type"@) == Some("localvideo"@),
        attr_of(m1, "id"@) == attr_of(m2, "id"@),
        child_of(m1, "options"@) == child_of(m2, "options"@),
        attr_of(m1, "render"@) == attr_of(m2, "render"@),
        attr_of(m1, "duration"@) == attr_of(m2, "duration"@),
    ensures
        media_of(rid, g, m1) == media_of(rid, g, m2),
{
    lemma_video_types_differ();
}

/// A video media item with an id, options and a `uri` option, not rendered as
/// html, becomes a `<video>` element playing the percent-decoded uri, whose
/// start script plays it and whose duration is the video's.
pub proof fn law_video_media_plays(rid: i32, g: Geom, m: XmlNode)
    requires
        attr_of(m, "type"@) == Some("video"@) || attr_of(m, "type"@) == Some("localvideo"@),
        attr_of(m, "render"@) != Some("html"@),
        attr_i32(m, "id") is Ok,
        child_of(m, "options"@) is Some,
        child_text_of(child_of(m, "options"@)->0, "uri"@) is Some,
    ensures
        ({
            let mid = attr_i32(m, "id")->Ok_0;
            let o = child_of(m, "options"@)->0;
            let u = child_text_of(o, "uri"@)->0;
            &&& media_of(rid, g, m).0 == "  <!-- media "@ + decimal_text(mid as int) + " -->\n"@ + video_html(
                rid,
                mid,
                percent_decoded(u),
                g,
                o,
            )
            &&& media_of(rid, g, m).1 is Ok
            &&& media_of(rid, g, m).1->Ok_0 is Some
            &&& media_of(rid, g, m).1->Ok_0->0.mid == mid
            &&& media_of(rid, g, m).1->Ok_0->0.add_start == "document.getElementById('m"@ + decimal_text(
                mid as int,
            ) + "').play();"@
            &&& media_of(rid, g, m).1->Ok_0->0.duration == "() => document.getElementById('m"@ + decimal_text(
                mid as int,
            ) + "').duration"@
        }),
{
    lemma_video_types_differ();
}

/// A translated media item carries the transitions its options give: the
/// entry transition from `transIn`, `transInDuration` and `transInDirection`,
/// the exit transition from `transOut`, `transOutDuration` and
/// `transOutDirection`; an absent type is none, an absent or non-numeric
/// duration is 1000 ms, an absent direction is `N`.
pub proof fn law_media_transitions_follow_options(rid: i32, g: Geom, m: XmlNode)
    requires
        media_of(rid, g, m).1 is Ok,
        media_of(rid, g, m).1->Ok_0 is Some,
    ensures
        child_of(m, "options"@) is Some,
        ({
            let v = media_of(rid, g, m).1->Ok_0->0;
            let o = child_of(m, "options"@)->0;
            &&& v.trans_in.trans_type == (match child_text_of(o, "transIn"@) {
                Some(t) => t,
                None => Seq::<char>::empty(),
            })
            &&& v.trans_in.duration == (match child_text_of(o, "transInDuration"@) {
                Some(t) => match parsed_i32(t) {
                    Some(d) => d,
                    None => 1000i32,
                },
                None => 1000i32,
            })
            &&& v.trans_in.direction == (match child_text_of(o, "transInDirection"@) {
                Some(t) => t,
                None => "N"@,
            })
            &&& v.trans_out.trans_type == (match child_text_of(o, "transOut"@) {
                Some(t) => t,
                None => Seq::<char>::empty(),
            })
            &&& v.trans_out.duration == (match child_text_of(o, "transOutDuration"@) {
                Some(t) => match parsed_i32(t) {
                    Some(d) => d,
                    None => 1000i32,
                },
                None => 1000i32,
            })
            &&& v.trans_out.direction == (match child_text_of(o, "transOutDirection"@) {
                Some(t) => t,
                None => "N"@,
            })
        }),
{
}

/// A layout code present anywhere in the code map is found, and what is found
/// is the layout id of the first entry with that code.
pub proof fn law_code_lookup_finds_first_entry(map: Seq<(String, LayoutId)>, code: Seq<char>)
    ensures
        (exists|i: int| 0 <= i < map.len() && #[trigger] map[i].0@ == code) ==> code_lookup(map, code) is Some,
        code_lookup(map, code) matches Some(id) ==> exists|i: int|
            0 <= i < map.len() && #[trigger] map[i].0@ == code && map[i].1 == id && forall|j: int|
                0 <= j < i ==> #[trigger] map[j].0@ != code,
        code_lookup(map, code) is None ==> forall|i: int| 0 <= i < map.len() ==> #[trigger] map[i].0@ != code,
    decreases map.len(),
{
    if map.len() > 0 {
        let rest = map.drop_first();
        law_code_lookup_finds_first_entry(rest, code);
        if map[0].0@ != code {
            assert forall|i: int| 1 <= i < map.len() implies map[i] == rest[i - 1] by {}
            if exists|i: int| 0 <= i < map.len() && #[trigger] map[i].0@ == code {
                let i = choose|i: int| 0 <= i < map.len() && #[trigger] map[i].0@ == code;
                assert(rest[i - 1].0@ == code);
            }
            if let Some(id) = code_lookup(map, code) {
                let i = choose|i: int|
                    0 <= i < rest.len() && #[trigger] rest[i].0@ == code && rest[i].1 == id && forall|j: int|
                        0 <= j < i ==> #[trigger] rest[j].0@ != code;
                assert(map[i + 1] == rest[i]);
                assert forall|j: int| 0 <= j < i + 1 implies #[trigger] map[j].0@ != code by {
                    if j > 0 {
                        assert(map[j] == rest[j - 1]);
                    }
                }
            }
            if code_lookup(map, code) is None {
                assert forall|i: int| 0 <= i < map.len() implies #[trigger] map[i].0@ != code by {
                    if i > 0 {
                        assert(map[i] == rest[i - 1]);
                    }
                }
            }
        }
    }
}

/// A webhook `navLayout` action whose required attributes are present and
/// whose layout code is anywhere in the code map is translated into a trigger
/// for the layout of the first entry with that code.
pub proof fn law_nav_action_is_registered(el: XmlNode, map: Seq<(String, LayoutId)>)
    requires
        attr_of(el, "triggerType"@) == Some("webhook"@),
        attr_of(el, "actionType"@) == Some("navLayout"@),
        attr_of(el, "target"@) is Some,
        attr_i64(el, "targetId") is Ok,
        exists|i: int| 0 <= i < map.len() && #[trigger] map[i].0@ == attr_or(el, "layoutCode"@, "<not set>"@),
    ensures
        action_of(el, map) is Ok,
        exists|i: int|
            0 <= i < map.len() && #[trigger] map[i].0@ == attr_or(el, "layoutCode"@, "<not set>"@)
                && action_of(el, map) == Ok::<Seq<char>, ActionError>(
                trigger_js(
                    attr_or(el, "triggerCode"@, "<not set>"@),
                    "navLayout"@,
                    attr_of(el, "target"@)->0,
                    attr_i64(el, "targetId")->Ok_0,
                    map[i].1,
                ),
            ),
{
    law_code_lookup_finds_first_entry(map, attr_or(el, "layoutCode"@, "<not set>"@));
}

/// Translates one XLF layout document into an HTML document.
pub struct Translator {
    id: LayoutId,
    tree: XmlNode,
    code_map: Vec<(String, LayoutId)>,
}

/// What a translator translates: a layout's id, its document, and the map
/// from layout codes to layout ids that `navLayout` actions use.
pub struct TranslatorView {
    pub id: LayoutId,
    pub tree: XmlNode,
    pub code_map: Seq<(String, LayoutId)>,
}

impl View for Translator {
    type V = TranslatorView;

    closed spec fn view(&self) -> TranslatorView {
        TranslatorView { id: self.id, tree: self.tree, code_map: self.code_map@ }
    }
}

impl Translator {
    /// A translator for the layout `id` whose XLF document is `xlf`; fails
    /// where the document is not well-formed XML.
    pub fn new(id: LayoutId, xlf: &[u8], code_map: Vec<(String, LayoutId)>) -> (r: Result<Translator, XmlError>)
        ensures
            match r {
                Ok(t) => {
                    &&& t@.id == id
                    &&& t@.code_map == code_map@
                    &&& xml_document(xlf@) matches Some(m) && node_is(t@.tree, m)
                },
                Err(_) => xml_document(xlf@) is None,
            },
    {
        match parse_xml(xlf) {
            Ok(tree) => Ok(Translator { id, tree, code_map }),
            Err(e) => Err(e),
        }
    }

    /// A translator for the layout `id` whose document is `tree`.
    pub fn from_tree(id: LayoutId, tree: XmlNode, code_map: Vec<(String, LayoutId)>) -> (r: Translator)
        ensures
            r@ == (TranslatorView { id, tree, code_map: code_map@ }),
    {
        Translator { id, tree, code_map }
    }

    /// Translates the document: gives the layout's size and the HTML document.
    /// Regions, media items and actions that cannot be translated are left
    /// out (what a region or media item wrote before its fault stays);
    /// only a missing or invalid width or height fails the translation.
    pub fn translate(self) -> (r: Result<((i32, i32), String), FieldError>)
        ensures
            match r {
                Ok((size, html)) => translation(self@.id, self@.tree, self@.code_map) == Ok::<
                    ((i32, i32), Seq<char>),
                    FieldError,
                >((size, html@)),
                Err(e) => translation(self@.id, self@.tree, self@.code_map) == Err::<
                    ((i32, i32), Seq<char>),
                    FieldError,
                >(e),
            },
    {
        broadcast use crate::text::lemma_concat_assoc;

        let mut out = String::new();
        let size = match write_header(&mut out, self.id, &self.tree) {
            Ok(s) => s,
            Err(e) => { return Err(e); },
        };
        let regions = write_regions(&mut out, &self.tree.children);
        out.append("<script type='text/javascript'>\n");
        write_actions(&mut out, &self.tree.children, &self.code_map);
        out.append("</script>\n");
        write_footer(&mut out, &regions);
        assert(out@ =~= translation(self@.id, self@.tree, self@.code_map)->Ok_0.1);
        Ok((size, out))
    }
}

/// Whether an optional text is `Some(t)`.
pub open spec fn opt_is(o: Option<&str>, t: Seq<char>) -> bool {
    match o {
        Some(v) => v@ == t,
        None => false,
    }
}

} // verus!
