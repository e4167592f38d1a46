use rustproc::commands::{LineKind, OutputLine};
use rustproc::system::GpuInfo;
use rustproc::ui::{
    abbreviate_home, core_summary, draw_panel, format_clock, frame_text, inner, layout,
    line_color, outer_frame, pad, panel_text, prompt_op, prompt_text, replace_all, shell_output,
    too_small, truncate, vendor_model, Color, CoreText,
};

#[test]
fn truncation_marks_cuts() {
    assert_eq!(truncate("hello", 0), "");
    assert_eq!(truncate("hello", 1), "h");
    assert_eq!(truncate("hello", 4), "hel~");
    assert_eq!(truncate("hello", 5), "hello");
    assert_eq!(truncate("héllo wörld", 7), "héllo ~");
    assert_eq!(pad("ab", 4), "ab  ");
    assert_eq!(pad("abcdef", 4), "abcdef");
    assert_eq!(inner(10), 8);
    assert_eq!(inner(1), 0);
}

#[test]
fn labels() {
    assert_eq!(format_clock(Some(1905)), "1905 MHz");
    assert_eq!(format_clock(None), "n/a");
    assert_eq!(abbreviate_home("/home/u", Some("/home/u")), "~");
    assert_eq!(abbreviate_home("/home/u/src", Some("/home/u")), "~/src");
    assert_eq!(abbreviate_home("/home/user", Some("/home/u")), "/home/user");
    assert_eq!(abbreviate_home("/tmp", None), "/tmp");
    let mut g = GpuInfo::default();
    assert_eq!(vendor_model(&g), "Not detected");
    g.model = "RTX".to_string();
    g.vendor = "NVIDIA".to_string();
    assert_eq!(vendor_model(&g), "NVIDIA RTX");
    assert_eq!(prompt_text("~/src", 0, "ls"), "  RustProc ~/src > ls\u{2588}");
    assert_eq!(prompt_text("/", -1, ""), "  RustProc / [-1] > \u{2588}");
}

#[test]
fn colors_follow_line_kind() {
    assert_eq!(line_color(&LineKind::Normal), Color::White);
    assert_eq!(line_color(&LineKind::Ai), Color::Cyan);
    assert_eq!(line_color(&LineKind::AiHeader), Color::DarkCyan);
    assert_eq!(line_color(&LineKind::Success), Color::Green);
    assert_eq!(line_color(&LineKind::Warning), Color::Yellow);
    assert_eq!(line_color(&LineKind::Error), Color::Red);
    assert_eq!(line_color(&LineKind::Dim), Color::DarkGrey);
}

#[test]
fn screen_layout() {
    let l = layout(None);
    assert_eq!((l.width, l.height, l.too_small, l.shell_divider, l.prompt_divider), (100, 32, false, 24, 29));
    let small = layout(Some((60, 40)));
    assert!(small.too_small);
    let tiny = layout(Some((5, 2)));
    assert_eq!((tiny.width, tiny.height), (20, 8));
    let edge = layout(Some((74, 32)));
    assert_eq!((edge.too_small, edge.shell_divider, edge.prompt_divider), (false, 24, 29));
    let short = layout(Some((100, 31)));
    assert_eq!((short.too_small, short.shell_divider), (true, 24));
    let tall = layout(Some((100, 50)));
    assert_eq!((tall.too_small, tall.shell_divider, tall.prompt_divider), (false, 42, 47));
}

#[test]
fn core_summary_shortens_names() {
    let cores: Vec<CoreText> = (0..6)
        .map(|i| CoreText { name: format!("cpu{}", i), usage: format!("{}", i * 10), frequency_mhz: 3000 })
        .collect();
    assert_eq!(core_summary(&cores, 100), "c0:0%/3000 c1:10%/3000 c2:20%/3000 c3:30%/3000");
    assert_eq!(core_summary(&cores, 12), "c0:0%/3000 ~");
    assert_eq!(replace_all("cpucpu-cp", "cpu", "c"), "cc-cp");
    assert_eq!(replace_all("abc", "", "x"), "abc");
}

#[test]
fn frame_and_panel_text() {
    let o = frame_text(5, 10, "hello world", Color::Green);
    assert_eq!((o.x, o.y, o.color, o.text.as_str()), (1, 5, Color::Green, "hello w~"));
    let p = panel_text(3, 6, 12, "abc", Color::White);
    assert_eq!((p.x, p.y, p.text.as_str()), (6, 6, "abc     "));
    let q = prompt_op(20, 30, "> x");
    assert_eq!((q.y, q.color), (28, Color::Green));
}

#[test]
fn panel_boxes() {
    let ops = draw_panel(3, 4, 14, 4, "Stats");
    let texts: Vec<String> = ops.iter().map(|o| o.text.clone()).collect();
    assert_eq!(
        texts,
        vec![
            "\u{250C}\u{2500}\u{2500} Stats \u{2500}\u{2500}\u{2500}\u{2510}".to_string(),
            "\u{2502}            \u{2502}".to_string(),
            "\u{2502}            \u{2502}".to_string(),
            "\u{2514}\u{2500}\u{2500}\u{2500}\u{2500}\u{2500}\u{2500}\u{2500}\u{2500}\u{2500}\u{2500}\u{2500}\u{2500}\u{2518}".to_string(),
        ]
    );
    let rows: Vec<u16> = ops.iter().map(|o| o.y).collect();
    assert_eq!(rows, vec![4, 5, 6, 7]);
}

#[test]
fn outer_frame_skips_divider_rows() {
    let ops = outer_frame(10, 8, 4, 5);
    assert_eq!(ops.len(), 5 + 2 * 3);
    assert_eq!(ops[0].text, format!("\u{2554}{}\u{2557}", "\u{2550}".repeat(8)));
    assert_eq!(ops[4].y, 7);
    let side_rows: Vec<u16> = ops[5..].iter().map(|o| o.y).collect();
    assert_eq!(side_rows, vec![1, 1, 3, 3, 6, 6]);
    assert_eq!(ops[6].x, 9);
}

#[test]
fn shell_output_shows_newest_lines() {
    let lines: Vec<OutputLine> = (0..10).map(|i| OutputLine::normal(format!("line {}", i))).collect();
    let ops = shell_output(&lines, 20, 10, 15);
    assert_eq!(ops.len(), 1 + 3);
    assert_eq!(ops[0].y, 11);
    assert_eq!(ops[1].text.trim_end(), "  line 7");
    assert_eq!(ops[3].y, 14);
    let few = shell_output(&lines[..1].to_vec(), 20, 10, 15);
    assert_eq!(few.len(), 2);
}

#[test]
fn too_small_screen() {
    let ops = too_small(20, 8);
    assert_eq!(ops.len(), 2);
    assert_eq!(ops[0].y, 3);
    assert_eq!(ops[0].text, "RustProc needs at l~");
    assert_eq!(ops[1].text, "Resize terminal or ~");
}

#[test]
fn header_and_panels() {
    let h = rustproc::ui::header_op(80, "12", "3.5", "16", "n/a", 321);
    assert_eq!(h.y, 1);
    assert_eq!(h.text.trim_end(), "  RustProc Shell v0.2  \u{2502}  CPU: 12%  RAM: 3.5/16 GB  GPU: n/a  PIDs: 321");
    let panel = rustproc::ui::SystemPanel {
        cpu_bar: "##".to_string(),
        cpu_usage: "7.5".to_string(),
        cpu_temp: "40 C".to_string(),
        cpu_frequency_mhz: 3600,
        cpu_color: Color::Green,
        memory_bar: "#".to_string(),
        memory_pct: "50.0".to_string(),
        used_gb: "8.0".to_string(),
        total_gb: "16.0".to_string(),
        memory_color: Color::Yellow,
        gpu_name: "AMD Radeon".to_string(),
        vram: "n/a".to_string(),
        gpu_temp: "n/a".to_string(),
        cpu_brand: "Ryzen".to_string(),
        cpu_logical_cores: 16,
        critical: "n/a".to_string(),
        core_clock_mhz: Some(1800),
        memory_clock_mhz: None,
        cores: "c0:1%/3600".to_string(),
    };
    let ops = rustproc::ui::system_panel(&panel, 120);
    assert_eq!(ops.len(), 7 + 5);
    assert_eq!(ops[7].y, 5);
    assert_eq!(ops[7].x, 6);
    assert_eq!(ops[7].text.trim_end(), "CPU  ##   7.5%   Temp: 40 C     Freq: 3600 MHz");
    assert_eq!(ops[8].color, Color::Yellow);
    assert_eq!(ops[11].text.trim_end(), "CLK  GPU core 1800 MHz   mem n/a        Cores c0:1%/3600");
    let procs = (0..10)
        .map(|i| rustproc::ui::ProcessText {
            pid: format!("{}", 100 + i),
            name: "bash".to_string(),
            cpu: "1.0".to_string(),
            memory_mb: 12,
            status: "Run".to_string(),
            color: Color::Green,
        })
        .collect::<Vec<_>>();
    let ops = rustproc::ui::process_panel(&procs, 120);
    assert_eq!(ops.len(), 11 + 1 + 8);
    assert_eq!(ops[0].y, 13);
    assert!(ops[0].text.contains("Processes (top 8 by CPU)"));
    assert_eq!(ops[12].y, 15);
    assert_eq!(ops[19].y, 22);
    assert_eq!(ops[19].text.trim_end(), "107      bash                   1.0       12   Run");
    assert_eq!(ops[12].text.trim_end(), "100      bash                   1.0       12   Run");
}
