use clipimg::dialog::{build_template, unavailable_dialog_template};

struct Builder {
    b: Vec<u8>,
}

impl Builder {
    fn new() -> Self {
        Builder { b: Vec::new() }
    }
    fn u32(&mut self, v: u32) {
        self.b.extend_from_slice(&v.to_le_bytes());
    }
    fn u16(&mut self, v: u16) {
        self.b.extend_from_slice(&v.to_le_bytes());
    }
    fn i16(&mut self, v: i16) {
        self.b.extend_from_slice(&v.to_le_bytes());
    }
    fn str16(&mut self, s: &str) {
        for u in s.encode_utf16() {
            self.u16(u);
        }
        self.u16(0);
    }
    fn align4(&mut self) {
        while self.b.len() % 4 != 0 {
            self.b.push(0);
        }
    }
    fn header(&mut self, items: u16, cx: i16, cy: i16, title: &str) {
        self.u32(0x80000000 | 0x10000000 | 0x00C00000 | 0x00080000 | 0x80 | 0x800 | 0x40);
        self.u32(0);
        self.u16(items);
        self.i16(0);
        self.i16(0);
        self.i16(cx);
        self.i16(cy);
        self.u16(0);
        self.u16(0);
        self.str16(title);
        self.u16(9);
        self.str16("Segoe UI");
    }
    fn item(&mut self, style: u32, rect: [i16; 4], id: u16, class: u16) {
        self.align4();
        self.u32(style);
        self.u32(0);
        for v in rect {
            self.i16(v);
        }
        self.u16(id);
        self.u16(0xFFFF);
        self.u16(class);
    }
}

const CHILD_VISIBLE: u32 = 0x40000000 | 0x10000000;

#[test]
fn first_run_template_matches_win32_layout() {
    let edit = CHILD_VISIBLE | 0x00800000 | 0x00010000 | 0x80;
    let mut e = Builder::new();
    e.header(8, 280, 120, "clipImg - 路径配置");
    e.item(CHILD_VISIBLE, [7, 5, 260, 10], 0, 0x0082);
    e.str16("以下两个路径指向同一个物理目录（WSL2 挂载）");
    e.u16(0);
    e.item(CHILD_VISIBLE, [7, 20, 260, 10], 0, 0x0082);
    e.str16("Windows 侧（程序实际写入）：");
    e.u16(0);
    e.item(edit, [7, 33, 260, 14], 101, 0x0081);
    e.u16(0);
    e.u16(0);
    e.item(CHILD_VISIBLE, [105, 50, 60, 10], 0, 0x0082);
    e.str16("↕ 挂载映射");
    e.u16(0);
    e.item(CHILD_VISIBLE, [7, 63, 260, 10], 0, 0x0082);
    e.str16("容器侧（粘贴到终端的路径）：");
    e.u16(0);
    e.item(edit, [7, 76, 260, 14], 102, 0x0081);
    e.u16(0);
    e.u16(0);
    e.item(CHILD_VISIBLE | 0x00010000 | 0x01, [170, 98, 50, 14], 1, 0x0080);
    e.str16("确定");
    e.u16(0);
    e.item(CHILD_VISIBLE | 0x00010000, [225, 98, 50, 14], 2, 0x0080);
    e.str16("取消");
    e.u16(0);
    assert_eq!(build_template(), e.b);
}

#[test]
fn first_run_template_starts_with_dialog_style_and_count() {
    let t = build_template();
    assert_eq!(&t[0..4], &[0xC0u8, 0x08, 0xC8, 0x90]);
    assert_eq!(&t[8..10], &[8u8, 0]);
    assert_eq!(&t[14..18], &[24u8, 1, 120, 0]);
}

fn expected_unavailable(msg: &str) -> Vec<u8> {
    let mut e = Builder::new();
    e.header(4, 300, 110, "clipImg");
    e.item(CHILD_VISIBLE | 0x3, [10, 12, 32, 32], 0, 0x0082);
    e.u16(0xFFFF);
    e.u16(103);
    e.u16(0);
    e.item(CHILD_VISIBLE, [50, 10, 240, 55], 0, 0x0082);
    e.str16(msg);
    e.u16(0);
    e.item(CHILD_VISIBLE | 0x00010000 | 0x01, [145, 80, 60, 20], 1, 0x0080);
    e.str16("确定");
    e.u16(0);
    e.item(CHILD_VISIBLE | 0x00010000, [210, 80, 75, 20], 101, 0x0080);
    e.str16("不再提醒");
    e.u16(0);
    e.b
}

#[test]
fn unavailable_template_carries_the_message() {
    let msg = "存储目录不可用：E:\\work\\.clip\n截图未保存";
    assert_eq!(unavailable_dialog_template(msg), expected_unavailable(msg));
}

#[test]
fn unavailable_template_alignment_for_odd_message_lengths() {
    for msg in ["", "a", "ab", "abc", "😀", "目录"] {
        assert_eq!(unavailable_dialog_template(msg), expected_unavailable(msg));
    }
}
