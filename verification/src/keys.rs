use vstd::prelude::*;

verus! {

/// A key press as the editor reads it from the terminal.
#[derive(Clone, Copy, Debug, PartialEq, Eq, Structural)]
pub enum Key {
    Char(char),
    Ctrl(char),
    Enter,
    Backspace,
    Delete,
    Left,
    Right,
    Up,
    Down,
    Home,
    End,
    Esc,
    Unknown,
}

/// The key that a first byte read from the terminal stands for; `None` when
/// it is the escape byte, which starts a sequence that is read further.
pub open spec fn spec_key_for_byte(byte: u8) -> Option<Key> {
    if byte == 13 || byte == 10 {
        Some(Key::Enter)
    } else if byte == 0x7f || byte == 0x08 {
        Some(Key::Backspace)
    } else if byte == 0x1b {
        None
    } else if 0x01 <= byte <= 0x1a {
        Some(Key::Ctrl(((byte + 96) as u8) as char))
    } else if byte < 0x80 {
        Some(Key::Char(byte as char))
    } else {
        Some(Key::Unknown)
    }
}

/// Decodes the first byte of a key press.
pub fn key_for_byte(byte: u8) -> (r: Option<Key>)
    ensures
        r == spec_key_for_byte(byte),
{
    if byte == 13 || byte == 10 {
        Some(Key::Enter)
    } else if byte == 0x7f || byte == 0x08 {
        Some(Key::Backspace)
    } else if byte == 0x1b {
        None
    } else if 0x01 <= byte && byte <= 0x1a {
        let letter: u8 = byte + 96;
        Some(Key::Ctrl(letter as char))
    } else if byte < 0x80 {
        Some(Key::Char(byte as char))
    } else {
        Some(Key::Unknown)
    }
}

/// Where decoding an escape sequence stands: a key, or one more byte needed.
#[derive(Clone, Copy, Debug, PartialEq, Eq, Structural)]
pub enum EscapeStep {
    Done(Key),
    NeedByte,
}

/// Decoding the bytes that followed an escape byte. `seq` holds the bytes
/// read so far; `ended` says that the attempt to read one more gave nothing.
/// `[A`..`[D` are the arrows, `[H`/`OH` Home, `[F`/`OF` End, `[3~` Delete;
/// a lone escape, or one followed by anything but `[` or `O`, is Esc; any
/// other sequence is an unknown key.
pub open spec fn spec_escape_step(seq: Seq<u8>, ended: bool) -> EscapeStep {
    if seq.len() == 0 {
        if ended {
            EscapeStep::Done(Key::Esc)
        } else {
            EscapeStep::NeedByte
        }
    } else if seq[0] != 0x5b && seq[0] != 0x4f {
        EscapeStep::Done(Key::Esc)
    } else if seq.len() == 1 {
        if ended {
            EscapeStep::Done(Key::Esc)
        } else {
            EscapeStep::NeedByte
        }
    } else {
        let a = seq[0];
        let b = seq[1];
        if a == 0x5b && b == 0x41 {
            EscapeStep::Done(Key::Up)
        } else if a == 0x5b && b == 0x42 {
            EscapeStep::Done(Key::Down)
        } else if a == 0x5b && b == 0x43 {
            EscapeStep::Done(Key::Right)
        } else if a == 0x5b && b == 0x44 {
            EscapeStep::Done(Key::Left)
        } else if b == 0x48 {
            EscapeStep::Done(Key::Home)
        } else if b == 0x46 {
            EscapeStep::Done(Key::End)
        } else if a == 0x5b && b == 0x33 {
            if seq.len() == 2 {
                if ended {
                    EscapeStep::Done(Key::Unknown)
                } else {
                    EscapeStep::NeedByte
                }
            } else if seq[2] == 0x7e {
                EscapeStep::Done(Key::Delete)
            } else {
                EscapeStep::Done(Key::Unknown)
            }
        } else {
            EscapeStep::Done(Key::Unknown)
        }
    }
}

/// Decodes an escape sequence from the bytes read after the escape byte:
/// the key it stands for, or the need of one more byte.
pub fn read_escape_sequence(seq: &[u8], ended: bool) -> (r: EscapeStep)
    ensures
        r == spec_escape_step(seq@, ended),
{
    if seq.len() == 0 {
        return if ended {
            EscapeStep::Done(Key::Esc)
        } else {
            EscapeStep::NeedByte
        };
    }
    let a = seq[0];
    if a != 0x5b && a != 0x4f {
        return EscapeStep::Done(Key::Esc);
    }
    if seq.len() == 1 {
        return if ended {
            EscapeStep::Done(Key::Esc)
        } else {
            EscapeStep::NeedByte
        };
    }
    let b = seq[1];
    if a == 0x5b && b == 0x41 {
        EscapeStep::Done(Key::Up)
    } else if a == 0x5b && b == 0x42 {
        EscapeStep::Done(Key::Down)
    } else if a == 0x5b && b == 0x43 {
        EscapeStep::Done(Key::Right)
    } else if a == 0x5b && b == 0x44 {
        EscapeStep::Done(Key::Left)
    } else if b == 0x48 {
        EscapeStep::Done(Key::Home)
    } else if b == 0x46 {
        EscapeStep::Done(Key::End)
    } else if a == 0x5b && b == 0x33 {
        if seq.len() == 2 {
            if ended {
                EscapeStep::Done(Key::Unknown)
            } else {
                EscapeStep::NeedByte
            }
        } else if seq[2] == 0x7e {
            EscapeStep::Done(Key::Delete)
        } else {
            EscapeStep::Done(Key::Unknown)
        }
    } else {
        EscapeStep::Done(Key::Unknown)
    }
}

/// The two snippet menus of the editor.
#[derive(Clone, Copy, Debug, PartialEq, Eq, Structural)]
pub enum SnippetMenu {
    Oscillators,
    Effects,
}

/// How many snippets a menu offers.
pub open spec fn spec_snippet_count(menu: SnippetMenu) -> nat {
    match menu {
        SnippetMenu::Oscillators => 7,
        SnippetMenu::Effects => 10,
    }
}

/// How many snippets a menu offers.
pub fn snippet_count(menu: SnippetMenu) -> (r: usize)
    ensures
        r == spec_snippet_count(menu),
{
    match menu {
        SnippetMenu::Oscillators => 7,
        SnippetMenu::Effects => 10,
    }
}

/// An open snippet menu and the item selected in it.
#[derive(Clone, Copy, Debug, PartialEq, Eq, Structural)]
pub struct MenuState {
    pub menu: SnippetMenu,
    pub selected: usize,
}

/// The title of a menu.
pub open spec fn spec_menu_title(menu: SnippetMenu) -> Seq<char> {
    match menu {
        SnippetMenu::Oscillators => "Oscillators"@,
        SnippetMenu::Effects => "Effects"@,
    }
}

/// The title of a menu.
pub fn menu_title(menu: SnippetMenu) -> (r: &'static str)
    ensures
        r@ == spec_menu_title(menu),
{
    match menu {
        SnippetMenu::Oscillators => "Oscillators",
        SnippetMenu::Effects => "Effects",
    }
}

/// The label of snippet `index` of a menu.
pub open spec fn spec_snippet_label(menu: SnippetMenu, index: int) -> Seq<char> {
    match menu {
        SnippetMenu::Oscillators => {
            if index == 0 {
                "kick-808"@
            } else if index == 1 {
                "snare-808"@
            } else if index == 2 {
                "hat-909"@
            } else if index == 3 {
                "supersaw lead"@
            } else if index == 4 {
                "fm bass"@
            } else if index == 5 {
                "pad wash"@
            } else if index == 6 {
                "scene"@
            } else {
                Seq::empty()
            }
        },
        SnippetMenu::Effects => {
            if index == 0 {
                "filter lowpass"@
            } else if index == 1 {
                "moog"@
            } else if index == 2 {
                "tb-303"@
            } else if index == 3 {
                "delay"@
            } else if index == 4 {
                "ams reverb"@
            } else if index == 5 {
                "h3000"@
            } else if index == 6 {
                "sub bass"@
            } else if index == 7 {
                "sidechain"@
            } else if index == 8 {
                "tube"@
            } else if index == 9 {
                "fx vector"@
            } else {
                Seq::empty()
            }
        },
    }
}

/// The text that snippet `index` of a menu inserts.
pub open spec fn spec_snippet_text(menu: SnippetMenu, index: int) -> Seq<char> {
    match menu {
        SnippetMenu::Oscillators => {
            if index == 0 {
                "(d :kick\n   :src :kick-808\n   :note c1\n   :gate (p [1 0 0 0 1 0 0 0])\n   :dur 0.36\n   :amp 0.42)\n"@
            } else if index == 1 {
                "(d :snare\n   :src :snare-808\n   :note c3\n   :gate (p [0 0 0 0 1 0 0 0])\n   :dur 0.16\n   :amp 0.22)\n"@
            } else if index == 2 {
                "(d :hat\n   :src :hat-909\n   :note c6\n   :gate (p [0 1 0 1 0 1 0 1])\n   :dur 0.03\n   :amp 0.06)\n"@
            } else if index == 3 {
                "(d :lead\n   :src :supersaw\n   :note (p [c4 eb4 g4 bb4])\n   :gate (p [1 0 1 1 0 1 0 1])\n   :dur 0.08\n   :amp 0.12\n   :unison 5\n   :unison-detune 9\n   :unison-spread 0.8)\n"@
            } else if index == 4 {
                "(d :bass\n   :src :fm-op\n   :note (p [c2 c2 eb2 g1 bb1 c2])\n   :gate (p [1 0 1 1 0 1 0 1])\n   :dur 0.16\n   :amp 0.22\n   :fm-ratio 1.5\n   :fm-depth 2.2)\n"@
            } else if index == 5 {
                "(d :pad\n   :src :pad-wash\n   :note (p [c2 eb2 g2 bb2])\n   :gate (p [1 0 0 0 0 0 0 0])\n   :dur 1.8\n   :amp 0.12\n   :unison 5\n   :unison-detune 10\n   :unison-spread 0.8)\n"@
            } else if index == 6 {
                "(scene :intro :loop true\n  \n)\n\n(play-scene :intro)\n"@
            } else {
                Seq::empty()
            }
        },
        SnippetMenu::Effects => {
            if index == 0 {
                "(filter :type :lowpass :cutoff 1200 :res 0.35)"@
            } else if index == 1 {
                "(moog :cutoff 760 :res 0.55 :drive 0.10)"@
            } else if index == 2 {
                "(tb-303 :cutoff 1050 :res 0.85 :env-mod 0.45 :accent 0.25 :decay 0.24)"@
            } else if index == 3 {
                "(delay :time 0.125 :feedback 0.32 :mix 0.22)"@
            } else if index == 4 {
                "(ams-reverb :decay 0.58 :damping 0.42 :program :nonlin :mix 0.42)"@
            } else if index == 5 {
                "(h3000 :detune-cents 9 :mix 0.32)"@
            } else if index == 6 {
                "(sub-bass :mix 0.24)"@
            } else if index == 7 {
                "(sidechain :rate 2 :depth 0.45 :shape 0.45)"@
            } else if index == 8 {
                "(tube :drive 0.10 :asymmetry 0.03)"@
            } else if index == 9 {
                ":fx [(filter :type :lowpass :cutoff 1200 :res 0.35)\n     (delay :time 0.125 :feedback 0.32 :mix 0.22)]"@
            } else {
                Seq::empty()
            }
        },
    }
}

/// The label of snippet `index` of a menu.
pub fn snippet_label(menu: SnippetMenu, index: usize) -> (r: &'static str)
    requires
        index < spec_snippet_count(menu),
    ensures
        r@ == spec_snippet_label(menu, index as int),
{
    match menu {
        SnippetMenu::Oscillators => match index {
            0 => "kick-808",
            1 => "snare-808",
            2 => "hat-909",
            3 => "supersaw lead",
            4 => "fm bass",
            5 => "pad wash",
            _ => "scene",
        },
        SnippetMenu::Effects => match index {
            0 => "filter lowpass",
            1 => "moog",
            2 => "tb-303",
            3 => "delay",
            4 => "ams reverb",
            5 => "h3000",
            6 => "sub bass",
            7 => "sidechain",
            8 => "tube",
            _ => "fx vector",
        },
    }
}

/// The text that snippet `index` of a menu inserts.
pub fn snippet_text(menu: SnippetMenu, index: usize) -> (r: &'static str)
    requires
        index < spec_snippet_count(menu),
    ensures
        r@ == spec_snippet_text(menu, index as int),
{
    match menu {
        SnippetMenu::Oscillators => match index {
            0 => "(d :kick\n   :src :kick-808\n   :note c1\n   :gate (p [1 0 0 0 1 0 0 0])\n   :dur 0.36\n   :amp 0.42)\n",
            1 => "(d :snare\n   :src :snare-808\n   :note c3\n   :gate (p [0 0 0 0 1 0 0 0])\n   :dur 0.16\n   :amp 0.22)\n",
            2 => "(d :hat\n   :src :hat-909\n   :note c6\n   :gate (p [0 1 0 1 0 1 0 1])\n   :dur 0.03\n   :amp 0.06)\n",
            3 => "(d :lead\n   :src :supersaw\n   :note (p [c4 eb4 g4 bb4])\n   :gate (p [1 0 1 1 0 1 0 1])\n   :dur 0.08\n   :amp 0.12\n   :unison 5\n   :unison-detune 9\n   :unison-spread 0.8)\n",
            4 => "(d :bass\n   :src :fm-op\n   :note (p [c2 c2 eb2 g1 bb1 c2])\n   :gate (p [1 0 1 1 0 1 0 1])\n   :dur 0.16\n   :amp 0.22\n   :fm-ratio 1.5\n   :fm-depth 2.2)\n",
            5 => "(d :pad\n   :src :pad-wash\n   :note (p [c2 eb2 g2 bb2])\n   :gate (p [1 0 0 0 0 0 0 0])\n   :dur 1.8\n   :amp 0.12\n   :unison 5\n   :unison-detune 10\n   :unison-spread 0.8)\n",
            _ => "(scene :intro :loop true\n  \n)\n\n(play-scene :intro)\n",
        },
        SnippetMenu::Effects => match index {
            0 => "(filter :type :lowpass :cutoff 1200 :res 0.35)",
            1 => "(moog :cutoff 760 :res 0.55 :drive 0.10)",
            2 => "(tb-303 :cutoff 1050 :res 0.85 :env-mod 0.45 :accent 0.25 :decay 0.24)",
            3 => "(delay :time 0.125 :feedback 0.32 :mix 0.22)",
            4 => "(ams-reverb :decay 0.58 :damping 0.42 :program :nonlin :mix 0.42)",
            5 => "(h3000 :detune-cents 9 :mix 0.32)",
            6 => "(sub-bass :mix 0.24)",
            7 => "(sidechain :rate 2 :depth 0.45 :shape 0.45)",
            8 => "(tube :drive 0.10 :asymmetry 0.03)",
            _ => ":fx [(filter :type :lowpass :cutoff 1200 :res 0.35)\n     (delay :time 0.125 :feedback 0.32 :mix 0.22)]",
        },
    }
}

} // verus!
