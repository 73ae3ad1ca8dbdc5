// Compares the configuration parser with a direct use of the standard
// library's string functions on many generated texts.

use synd::parse_config_text;

#[derive(Debug, PartialEq)]
struct Settings {
    fetch_interval: u64,
    action: Option<String>,
    removal_threshold: Option<u64>,
    max_summary_length: usize,
    max_inferred_summary_length: usize,
    issues: usize,
}

fn expected(text: &str) -> Option<Settings> {
    let mut s = Settings {
        fetch_interval: 600,
        action: None,
        removal_threshold: Some(90 * 86400),
        max_summary_length: 240,
        max_inferred_summary_length: 240,
        issues: 0,
    };
    let pairs: Vec<(&str, &str)> = text
        .lines()
        .filter_map(|line| line.split("//").next().map(|s| s.trim()))
        .filter_map(|valid| valid.split_once(" = "))
        .collect();
    for (var, ass) in pairs {
        match var {
            "fetch interval" => match ass.parse::<u64>() {
                Ok(x) => s.fetch_interval = x,
                Err(_) => s.issues += 1,
            },
            "action" => s.action = Some(ass.to_string()),
            "removal threshold" => {
                let secs = ass.ends_with('s');
                let digits = if secs { &ass[..ass.len() - 1] } else { ass };
                match digits.parse::<u64>() {
                    Ok(x) => {
                        let v = if secs { x } else { x.checked_mul(86400)? };
                        s.removal_threshold = if v == 0 { None } else { Some(v) };
                    }
                    Err(_) => s.issues += 1,
                }
            }
            "max inferred summary length" => match ass.parse::<usize>() {
                Ok(x) => s.max_inferred_summary_length = x,
                Err(_) => s.issues += 1,
            },
            "max summary length" => match ass.parse::<usize>() {
                Ok(x) => s.max_summary_length = x,
                Err(_) => s.issues += 1,
            },
            _ => s.issues += 1,
        }
    }
    Some(s)
}

fn actual(text: &str) -> Option<Settings> {
    let (c, issues) = parse_config_text(text)?;
    Some(Settings {
        fetch_interval: c.fetch_interval,
        action: c.action,
        removal_threshold: c.removal_threshold,
        max_summary_length: c.max_summary_length,
        max_inferred_summary_length: c.max_inferred_summary_length,
        issues: issues.len(),
    })
}

const PIECES: &[&str] = &[
    "fetch interval", "action", "removal threshold", "max summary length",
    "max inferred summary length", "other", " = ", "=", " ", "\t", "\r", "\n", "\r\n", "//", "/",
    "0", "12", "+7", "-1", "s", "99999999999999999999", "213503982334602", "x", "é", "\u{3000}",
    "\u{85}", "a = b",
];

#[test]
fn agrees_with_std_on_generated_texts() {
    let mut seed: u64 = 0x2545_f491_4f6c_dd1d;
    for _ in 0..4000 {
        let mut text = String::new();
        seed ^= seed << 13;
        seed ^= seed >> 7;
        seed ^= seed << 17;
        let n = (seed % 14) as usize;
        for _ in 0..n {
            seed ^= seed << 13;
            seed ^= seed >> 7;
            seed ^= seed << 17;
            text.push_str(PIECES[(seed % PIECES.len() as u64) as usize]);
        }
        assert_eq!(actual(&text), expected(&text), "on {text:?}");
    }
}

#[test]
fn agrees_with_std_on_chosen_texts() {
    for text in [
        "fetch interval = 5\r",
        "\u{3000}fetch interval = 5\u{85}\n",
        "max summary length = 3 // c // d",
        "removal threshold = s",
        "removal threshold = 5ss",
        "action =  x",
        "fetch interval =  5",
        "\n\n\nfetch interval = 1\r\n\r\n",
    ] {
        assert_eq!(actual(text), expected(text), "on {text:?}");
    }
}
