use trayplay::config::Config;
use trayplay::gsr::{
    Error, GpuScreenRecorder, IoErrorKind, RecorderProcessHandle, recorder_args, recorder_program,
    replay_move_plan,
};
use trayplay::handle_gsr_start_result;

#[test]
fn new_supervisor_is_not_running() {
    let recorder = GpuScreenRecorder::new();
    assert!(!recorder.is_running());
}

#[test]
fn stop_without_start_fails_not_running() {
    let mut recorder = GpuScreenRecorder::new();
    assert_eq!(recorder.stop(), Err(Error::RecorderNotRunning));
}

#[test]
fn save_replay_without_start_fails_not_running() {
    let mut recorder = GpuScreenRecorder::new();
    assert_eq!(recorder.save_replay(), Err(Error::RecorderNotRunning));
}

#[test]
fn failed_spawn_surfaces_error_and_stays_stopped() {
    let mut recorder = GpuScreenRecorder::new();
    let result = recorder.start(Err(IoErrorKind::NotFound));
    assert_eq!(result, Err(Error::IoError(IoErrorKind::NotFound)));
    assert!(!recorder.is_running());
    assert_eq!(recorder.save_replay(), Err(Error::RecorderNotRunning));
}

#[test]
fn start_then_running_then_stop_not_running() {
    // A real child process stands in for the recorder binary, so the stop
    // signal has a live target.
    let runtime = tokio::runtime::Builder::new_multi_thread().enable_all().build().unwrap();
    runtime.block_on(async {
        let child = tokio::process::Command::new("sleep")
            .arg("30")
            .spawn()
            .expect("sleep must spawn");
        let pid = child.id().expect("child has a pid") as i32;
        let mut recorder = GpuScreenRecorder::new();
        assert_eq!(recorder.start(Ok(RecorderProcessHandle { pid })), Ok(()));
        assert!(recorder.is_running());
        assert_eq!(recorder.stop(), Ok(()));
        assert!(!recorder.is_running());
        assert_eq!(recorder.stop(), Err(Error::RecorderNotRunning));
    });
}

#[test]
fn save_replay_signals_running_process() {
    let runtime = tokio::runtime::Builder::new_multi_thread().enable_all().build().unwrap();
    runtime.block_on(async {
        let child = tokio::process::Command::new("sleep")
            .arg("30")
            .spawn()
            .expect("sleep must spawn");
        let pid = child.id().expect("child has a pid") as i32;
        let mut recorder = GpuScreenRecorder::new();
        assert_eq!(recorder.start(Ok(RecorderProcessHandle { pid })), Ok(()));
        assert_eq!(recorder.save_replay(), Ok(()));
        assert!(recorder.is_running());
    });
}

#[test]
fn second_start_replaces_handle() {
    let mut recorder = GpuScreenRecorder::new();
    assert_eq!(recorder.start(Ok(RecorderProcessHandle { pid: 1 })), Ok(()));
    assert!(recorder.is_running());
    assert_eq!(recorder.start(Ok(RecorderProcessHandle { pid: 1 })), Ok(()));
    assert!(recorder.is_running());
}

#[test]
fn recorder_command_line() {
    let mut c = Config::default_config(String::from("/videos"));
    c.screen = String::from("DP-1");
    c.framerate = 144;
    c.replay_duration_secs = 90;
    c.clear_buffer_on_save = false;
    let args = recorder_args(&c);
    assert_eq!(recorder_program(), "gpu-screen-recorder");
    assert_eq!(
        args,
        vec![
            String::from("-w"),
            String::from("DP-1"),
            String::from("-c"),
            String::from("mkv"),
            String::from("-f"),
            String::from("144"),
            String::from("-r"),
            String::from("90"),
            String::from("-restart-replay-on-save"),
            String::from("no"),
            String::from("-bm"),
            String::from("qp"),
            String::from("-q"),
            String::from("ultra"),
            String::from("-a"),
            String::from("default_output"),
            String::from("-a"),
            String::from("default_input"),
            String::from("-o"),
            String::from("/videos"),
        ]
    );
}

#[test]
fn replay_move_plan_builds_per_application_path() {
    let plan = replay_move_plan(
        &String::from("/videos"),
        &String::from("Foo"),
        &String::from("/videos/Replay_2024-01-01.mp4"),
    );
    assert_eq!(plan.directory, "/videos/Foo");
    assert_eq!(plan.target, "/videos/Foo/Foo_replay_2024-01-01.mp4");
}

#[test]
fn replay_move_plan_without_directory_in_line() {
    let plan = replay_move_plan(
        &String::from("/videos"),
        &String::from("Game"),
        &String::from("Replay_x.mkv"),
    );
    assert_eq!(plan.directory, "/videos/Game");
    assert_eq!(plan.target, "/videos/Game/Game_replay_x.mkv");
}

#[test]
fn start_result_messages() {
    assert_eq!(handle_gsr_start_result(&Ok(())), None);
    assert_eq!(
        handle_gsr_start_result(&Err(Error::IoError(IoErrorKind::NotFound))),
        Some(String::from("gpu-screen-recorder is not installed!"))
    );
    assert_eq!(
        handle_gsr_start_result(&Err(Error::IoError(IoErrorKind::Other))),
        Some(String::from("Error while starting gpu-screen-recorder."))
    );
    assert_eq!(
        handle_gsr_start_result(&Err(Error::NixErrno(3))),
        Some(String::from("Error while starting gpu-screen-recorder."))
    );
}
