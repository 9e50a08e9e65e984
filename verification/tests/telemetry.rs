use engine_render::gpu_telemetry::{
    dpm_sclk_max_hz, fmt_celsius, fmt_mhz, fmt_pct, fmt_residency, fmt_vram, fmt_watts,
    parse_kib_line, read_self_drm_residency, read_starred, read_u64, CardNode, FdInfo,
    GpuTelemetry, SysfsSample,
};
use engine_render::settings::{
    filter_topology, no_pin, staging_copy_threads, staging_numa_node, worker_count, CountError,
};
use engine_render::stats::{
    dt, fps, fps_line, gpu_line, screen, stage_ticks, FrameStats, PhaseAcc, PhaseTexts, Published,
};

fn s(t: &str) -> Option<String> {
    Some(t.to_string())
}

#[test]
fn figures_are_formatted_or_marked() {
    assert_eq!(fmt_pct(Some(7)), "  7%");
    assert_eq!(fmt_pct(None), "ERR");
    assert_eq!(fmt_mhz(Some(2_482_999_999)), "2482MHz");
    assert_eq!(fmt_mhz(Some(999_999)), "   0MHz");
    assert_eq!(fmt_mhz(None), "ERR");
    assert_eq!(fmt_watts(Some(87_000_000)), " 87W");
    assert_eq!(fmt_watts(None), "ERR");
    assert_eq!(fmt_celsius(Some(54_999)), "54C");
    assert_eq!(fmt_celsius(None), "ERR");
    assert_eq!(fmt_vram(Some(3 << 20), Some((8 << 30) + 5)), "3/8192MB");
    assert_eq!(fmt_vram(Some(1), None), "ERR");
    assert_eq!(fmt_residency(Some(2048), Some(1023)), "2/0MB");
    assert_eq!(fmt_residency(None, Some(1)), "ERR");
}

#[test]
fn kernel_files_are_read() {
    assert_eq!(read_u64(&s(" 42\n")), Some(42));
    assert_eq!(read_u64(&s("+7")), Some(7));
    assert_eq!(read_u64(&s("-7")), None);
    assert_eq!(read_u64(&s("")), None);
    assert_eq!(read_u64(&s("18446744073709551615")), Some(u64::MAX));
    assert_eq!(read_u64(&s("18446744073709551616")), None);
    assert_eq!(read_u64(&None), None);
    assert_eq!(parse_kib_line("drm-memory-vram:\t123 KiB", "drm-memory-vram:"), Some(123));
    assert_eq!(parse_kib_line("  drm-memory-gtt: 5", "drm-memory-gtt:"), Some(5));
    assert_eq!(parse_kib_line("drm-memory-gtt: x", "drm-memory-gtt:"), None);
    assert_eq!(parse_kib_line("drm-memory-gtt:", "drm-memory-gtt:"), None);
    assert_eq!(parse_kib_line("other: 5", "drm-memory-gtt:"), None);
}

#[test]
fn starred_lines_lose_index_and_clock() {
    let pcie = "0: 2.5GT/s, x8 309Mhz\n2: 16.0GT/s, x16 623Mhz *\n";
    assert_eq!(read_starred(&s(pcie)), s("16.0GT/s, x16"));
    assert_eq!(read_starred(&s("1: 16.0GT/s, x16 *\r\n")), s("16.0GT/s, x16"));
    assert_eq!(read_starred(&s("plain *")), s("plain"));
    assert_eq!(read_starred(&s("0: no star\n")), None);
    assert_eq!(read_starred(&None), None);
}

#[test]
fn the_dpm_table_has_a_top_clock() {
    let table = "0: 500Mhz\n1: 2482Mhz *\n2: 1000Mhz\nbad\n3: fast\n";
    assert_eq!(dpm_sclk_max_hz(&s(table)), 2_482_000_000);
    assert_eq!(dpm_sclk_max_hz(&s("")), 0);
    assert_eq!(dpm_sclk_max_hz(&None), 0);
}

fn fd(name: &str, target: &str, info: &str) -> FdInfo {
    FdInfo {
        name: name.to_string(),
        target: s(target),
        info: s(info),
    }
}

#[test]
fn residency_sums_render_nodes_only() {
    let a = "drm-driver: amdgpu\ndrm-memory-vram:\t100 KiB\ndrm-memory-gtt: 7 KiB\n";
    let fds = vec![
        fd("3", "/dev/dri/renderD128", a),
        fd("4", "/dev/null", a),
        fd("x", "/dev/dri/renderD128", a),
        fd("5", "/dev/dri/renderD129", "drm-memory-vram: 11 KiB"),
    ];
    assert_eq!(read_self_drm_residency(&fds), (Some(111), Some(7)));
    assert_eq!(read_self_drm_residency(&vec![fd("3", "/dev/dri/renderD1", "")]), (None, None));
    assert_eq!(read_self_drm_residency(&vec![]), (None, None));
}

fn card(name: &str, vendor: &str, hwmons: &[&str]) -> CardNode {
    CardNode {
        name: name.to_string(),
        vendor: s(vendor),
        device_id: s("0x744c\n"),
        has_busy: true,
        hwmons: hwmons.iter().map(|h| h.to_string()).collect(),
    }
}

#[test]
fn the_first_amd_card_is_watched() {
    let mut nodes = vec![
        card("card2", "0x1002\n", &["hwmon7", "hwmon3"]),
        card("card1", "0x10de\n", &["hwmon0"]),
        card("card1-DP-1", "0x1002\n", &["hwmon0"]),
        card("card0", "0x1002", &[]),
        card("card3", "0x1002", &["hwmon1"]),
    ];
    let t = GpuTelemetry::discover(&nodes).unwrap();
    assert_eq!(t.label(), "card2 (0x1002:0x744c)");
    assert_eq!(t.dev, "/sys/class/drm/card2/device");
    assert_eq!(t.hwmon, "/sys/class/drm/card2/device/hwmon/hwmon3");
    nodes[0].has_busy = false;
    nodes[4].device_id = None;
    assert_eq!(GpuTelemetry::discover(&nodes).unwrap().label(), "card3 (0x1002:?)");
    assert!(GpuTelemetry::discover(&vec![]).is_none());
}

#[test]
fn samples_print_one_line() {
    let t = GpuTelemetry::discover(&vec![card("card0", "0x1002", &["hwmon0"])]).unwrap();
    let sample = SysfsSample {
        gpu_busy_percent: s("98\n"),
        mem_busy_percent: s("5\n"),
        freq1_input: s("3165000000\n"),
        freq2_input: None,
        power1_average: s("303000000\n"),
        temp1_input: s("60000\n"),
        temp2_input: s("75000\n"),
        temp3_input: s("x\n"),
        pp_dpm_pcie: s("1: 16.0GT/s, x16 623Mhz *\n"),
        mem_info_vis_vram_used: s("1048576\n"),
        mem_info_vis_vram_total: s("2097152\n"),
        fds: vec![],
    };
    assert_eq!(
        t.sample_line(&sample),
        "  gpu: busy  98% mem   5% | sclk 3165MHz mclk ERR | pcie 16.0GT/s, x16 | PPT 303W | \
         temp e/j/m 60C/75C/ERR | visVRAM 1/2MB | self vram/gtt ERR"
    );
}

#[test]
fn the_reference_clock_only_rises() {
    let t = GpuTelemetry::discover(&vec![card("card0", "0x1002", &["hwmon0"])]).unwrap();
    let mut m = t.spawn_sclk_monitor(&s("1232000000"), &s("0: 2482Mhz *"));
    assert_eq!((m.now_hz(), m.reference_hz()), (1_232_000_000, 2_482_000_000));
    assert_eq!(m.normalise(), Some((1_232_000_000, 2_482_000_000)));
    m.publish(&s("3165000000"));
    assert_eq!(m.reference_hz(), 3_165_000_000);
    m.publish(&s("unreadable"));
    assert_eq!(m.now_hz(), 3_165_000_000);
    m.publish(&s("5"));
    assert_eq!(m.normalise(), Some((5, 3_165_000_000)));
    m.publish(&s("0"));
    assert_eq!(m.normalise(), None);
    assert_eq!(t.spawn_sclk_monitor(&None, &None).now_hz(), 0);
}

#[test]
fn settings_are_strict() {
    assert_eq!(no_pin(None), Ok(false));
    assert_eq!(no_pin(Some("1")), Ok(true));
    assert_eq!(no_pin(Some("true")), Ok(true));
    assert_eq!(no_pin(Some("false")), Ok(false));
    assert_eq!(
        no_pin(Some("y\"es")),
        Err("ENGINE_NO_PIN must be 0/1/true/false, got \"y\\\"es\"".to_string())
    );
    assert_eq!(staging_copy_threads(None), Ok(8));
    assert_eq!(staging_copy_threads(Some("")), Ok(8));
    assert_eq!(staging_copy_threads(Some("3")), Ok(3));
    assert_eq!(staging_copy_threads(Some("0")), Err(CountError::Zero));
    assert_eq!(staging_copy_threads(Some("many")), Err(CountError::NotANumber));
    assert_eq!(staging_numa_node(Some("")), Ok(None));
    assert_eq!(staging_numa_node(Some("1")), Ok(Some(1)));
    assert_eq!(staging_numa_node(Some("4294967296")), Err(CountError::NotANumber));
}

#[test]
fn workers_follow_the_machine_or_the_setting() {
    let nodes = vec![vec![0, 1, 2], vec![3, 4], vec![5]];
    let t = filter_topology(&nodes, &vec![4, 0, 2]);
    assert_eq!(t, vec![vec![0, 2], vec![4]]);
    assert_eq!(worker_count(None, None, &t), Ok(2), "one of three is the main thread");
    assert_eq!(worker_count(None, None, &vec![vec![0, 1]]), Ok(1));
    assert_eq!(worker_count(None, None, &vec![vec![0]]), Ok(1));
    assert_eq!(worker_count(None, None, &vec![]), Ok(1));
    assert_eq!(worker_count(Some("8"), Some("2"), &t), Ok(7));
    assert_eq!(worker_count(None, Some("1"), &t), Ok(1));
    assert_eq!(worker_count(None, Some("0"), &t), Err(CountError::Zero));
    assert_eq!(worker_count(Some("x"), None, &t), Err(CountError::NotANumber));
}

#[test]
fn phases_keep_their_extremes() {
    let mut a = PhaseAcc::new();
    assert_eq!(a.fmt_us("0.0", "0.0", "0.0"), "—");
    for ns in [700, 300, 900] {
        a.record(ns);
    }
    assert_eq!((a.min_ns, a.max_ns, a.sum_ns, a.count), (300, 900, 1900, 3));
    assert_eq!(a.fmt_us("0.3", "0.6", "12345.9"), "   0.3/   0.6/12345.9");
}

#[test]
fn windows_end_on_a_sampled_frame() {
    let mut f = FrameStats::new();
    f.record_acquire(5);
    f.record_host_wait_compute(6);
    f.record_host_staging(7);
    f.record_cpu_staging(8);
    f.record_cpu_gpu_staging(9);
    f.record_main_wait(10);
    f.record_sim_update(11);
    f.record_gpu_timestamps(&[1, 2, 3, 4, 5, 6, 7, 28]);
    for _ in 0..511 {
        assert!(f.tick(9).is_none());
    }
    let w = f.tick(1).unwrap();
    assert_eq!(w.frame_count, 512);
    assert_eq!((w.acquire.sum_ns, w.sim_update.max_ns), (5, 11));
    assert_eq!((w.gpu_stages[6].min_ns, w.gpu_total.count), (7, 1));
    assert_eq!((f.frame_count, f.acquire.count), (0, 0));
    for _ in 0..512 {
        assert!(f.tick(0).is_none(), "not a second yet");
    }
    assert_eq!(f.frame_count, 512);
}

#[test]
fn windows_print_two_lines() {
    let p = PhaseTexts {
        acquire: "a".to_string(),
        host_wait_compute: "b".to_string(),
        host_staging: "c".to_string(),
        cpu_gpu_staging: "d".to_string(),
        sim_update: "e".to_string(),
        main_wait: "f".to_string(),
        cpu_staging: "g".to_string(),
    };
    assert_eq!(
        fps_line("1050", "0.952", &p),
        "FPS: 1050  (0.952 ms/frame)  | us min/avg/max  acquire a | host_wait_compute b | \
         host_staging c [cpu_gpu_staging d] | sim_update e | main_wait f | cpu_staging g"
    );
    let stages = ["0", "1", "2", "3", "4", "5", "6", "7"].map(|t| t.to_string());
    assert_eq!(
        gpu_line(&stages),
        "  gpu us min/avg/max  scatter 0 | mvp1 1 | raster1 2 | hiz 3 | mvp2 4 | raster2 5 | \
         blit 6 | total 7"
    );
    assert_eq!(
        stage_ticks(&[10, 12, 11, 20, 20, 30, 31, 40]),
        [2, 0, 9, 0, 10, 1, 9, 30]
    );
}

#[test]
fn the_first_rate_is_taken_as_it_is() {
    let mut p = Published::new();
    p.publish(1, 60.0f32.to_bits(), 3, [8, 9]);
    assert_eq!((dt(&p), fps(&p), screen(&p)), (1, 60.0f32.to_bits(), [8, 9]));
    p.publish(2, 5, 59.0f32.to_bits(), [8, 9]);
    assert_eq!(p.fps, 59.0f32.to_bits());
}
