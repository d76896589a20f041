//! Detection of the llama.cpp shared library and how to install it.

use vstd::prelude::*;
use vstd::string::*;
use crate::text::{decimal, u64_to_string};

verus! {

/// Where the llama.cpp shared library is looked for, in order.
pub fn llamacpp_library_paths() -> (r: Vec<&'static str>)
    ensures
        r@.map_values(|p: &str| p@) == seq![
            "/usr/local/lib/libllama.so"@,
            "/usr/lib/libllama.so"@,
            "/usr/local/lib/libllama.dylib"@,
            "./libllama.so"@,
            "./libllama.dylib"@,
        ],
{
    let r = vec![
        "/usr/local/lib/libllama.so",
        "/usr/lib/libllama.so",
        "/usr/local/lib/libllama.dylib",
        "./libllama.so",
        "./libllama.dylib",
    ];
    assert(r@.map_values(|p: &str| p@) =~= seq![
        "/usr/local/lib/libllama.so"@,
        "/usr/lib/libllama.so"@,
        "/usr/local/lib/libllama.dylib"@,
        "./libllama.so"@,
        "./libllama.dylib"@,
    ]);
    r
}

/// Whether llama.cpp is available: `found[i]` tells whether the file at
/// `llamacpp_library_paths()[i]` exists, and any one of them will do.
pub fn is_llamacpp_available(found: &[bool]) -> (r: bool)
    ensures
        r == exists|i: int| 0 <= i < found@.len() && found@[i],
{
    let mut i: usize = 0;
    while i < found.len()
        invariant
            i <= found.len(),
            forall|j: int| 0 <= j < i ==> !found@[j],
        decreases found.len() - i,
    {
        if found[i] {
            return true;
        }
        i = i + 1;
    }
    false
}

/// How to build and install llama.cpp.
pub open spec fn install_text() -> Seq<char> {
    "\n📦 Cài đặt llama.cpp để tăng tốc Brain Engine 3-5x:\n\n🐧 Ubuntu/Debian:\n  sudo apt install -y cmake build-essential\n  git clone https://github.com/ggerganov/llama.cpp\n  cd llama.cpp && mkdir build && cd build\n  cmake .. -DBUILD_SHARED_LIBS=ON\n  cmake --build . --config Release -j$(nproc)\n  sudo cp lib/libllama.so /usr/local/lib/\n  sudo ldconfig\n\n🍎 macOS (Metal GPU acceleration):\n  brew install cmake\n  git clone https://github.com/ggerganov/llama.cpp\n  cd llama.cpp && mkdir build && cd build\n  cmake .. -DBUILD_SHARED_LIBS=ON -DGGML_METAL=ON\n  cmake --build . --config Release -j$(sysctl -n hw.ncpu)\n  sudo cp lib/libllama.dylib /usr/local/lib/\n\n🎮 CUDA GPU:\n  cmake .. -DBUILD_SHARED_LIBS=ON -DGGML_CUDA=ON\n  cmake --build . --config Release -j$(nproc)\n\n💡 Sau khi cài, BizClaw sẽ tự động phát hiện và sử dụng llama.cpp.\n"@
}

/// How to build and install llama.cpp on Linux, macOS and with CUDA.
pub fn install_instructions() -> (r: String)
    ensures
        r@ == install_text(),
{
    String::from_str("\n📦 Cài đặt llama.cpp để tăng tốc Brain Engine 3-5x:\n\n🐧 Ubuntu/Debian:\n  sudo apt install -y cmake build-essential\n  git clone https://github.com/ggerganov/llama.cpp\n  cd llama.cpp && mkdir build && cd build\n  cmake .. -DBUILD_SHARED_LIBS=ON\n  cmake --build . --config Release -j$(nproc)\n  sudo cp lib/libllama.so /usr/local/lib/\n  sudo ldconfig\n\n🍎 macOS (Metal GPU acceleration):\n  brew install cmake\n  git clone https://github.com/ggerganov/llama.cpp\n  cd llama.cpp && mkdir build && cd build\n  cmake .. -DBUILD_SHARED_LIBS=ON -DGGML_METAL=ON\n  cmake --build . --config Release -j$(sysctl -n hw.ncpu)\n  sudo cp lib/libllama.dylib /usr/local/lib/\n\n🎮 CUDA GPU:\n  cmake .. -DBUILD_SHARED_LIBS=ON -DGGML_CUDA=ON\n  cmake --build . --config Release -j$(nproc)\n\n💡 Sau khi cài, BizClaw sẽ tự động phát hiện và sử dụng llama.cpp.\n")
}

/// The llama.cpp inference backend: the model it loaded and the context,
/// thread and GPU-layer settings it runs with. (Its sampling temperature and
/// top-p are floating-point settings kept by the caller.)
pub struct LlamaCppBackend {
    model_path: String,
    context_size: u32,
    n_threads: u32,
    n_gpu_layers: i32,
    loaded: bool,
}

/// The error when no llama.cpp library is installed.
pub open spec fn library_missing_text() -> Seq<char> {
    "llama.cpp library not found. Install with: apt install -y cmake build-essential && git clone https://github.com/ggerganov/llama.cpp && cd llama.cpp && mkdir build && cd build && cmake .. -DBUILD_SHARED_LIBS=ON && cmake --build . --config Release && sudo cp lib/libllama.so /usr/local/lib/ && sudo ldconfig"@
}

impl LlamaCppBackend {
    pub closed spec fn path(self) -> Seq<char> {
        self.model_path@
    }

    pub closed spec fn settings(self) -> (u32, u32, i32) {
        (self.context_size, self.n_threads, self.n_gpu_layers)
    }

    pub closed spec fn loaded_spec(self) -> bool {
        self.loaded
    }

    /// A backend with a 2048-token context, 4 threads and no GPU layers,
    /// no model loaded.
    pub fn new() -> (r: Self)
        ensures
            r.settings() == (2048u32, 4u32, 0i32),
            !r.loaded_spec(),
            r.path() == Seq::<char>::empty(),
    {
        LlamaCppBackend { model_path: String::new(), context_size: 2048, n_threads: 4, n_gpu_layers: 0, loaded: false }
    }

    /// A backend with these settings, no model loaded.
    pub fn with_config(context_size: u32, n_threads: u32, n_gpu_layers: i32) -> (r: Self)
        ensures
            r.settings() == (context_size, n_threads, n_gpu_layers),
            !r.loaded_spec(),
            r.path() == Seq::<char>::empty(),
    {
        LlamaCppBackend { model_path: String::new(), context_size, n_threads, n_gpu_layers, loaded: false }
    }

    /// Loads the model at `model_path`, given whether that file exists and
    /// whether the llama.cpp library is installed; refused, and nothing
    /// changed, where either is missing.
    pub fn load_model(&mut self, model_path: &str, file_exists: bool, library_available: bool) -> (r: Result<(), String>)
        ensures
            !file_exists ==> (r matches Err(e) && e@ == "Model file not found: "@ + model_path@),
            file_exists && !library_available ==> (r matches Err(e) && e@ == library_missing_text()),
            r is Err ==> *final(self) == *old(self),
            file_exists && library_available ==> r is Ok && final(self).loaded_spec()
                && final(self).path() == model_path@ && final(self).settings() == old(self).settings(),
    {
        if !file_exists {
            let mut e = String::from_str("Model file not found: ");
            e.append(model_path);
            return Err(e);
        }
        if !library_available {
            return Err(String::from_str("llama.cpp library not found. Install with: apt install -y cmake build-essential && git clone https://github.com/ggerganov/llama.cpp && cd llama.cpp && mkdir build && cd build && cmake .. -DBUILD_SHARED_LIBS=ON && cmake --build . --config Release && sudo cp lib/libllama.so /usr/local/lib/ && sudo ldconfig"));
        }
        self.model_path = String::from_str(model_path);
        self.loaded = true;
        Ok(())
    }

    /// Generation: refused with "Model not loaded" before a load; with a
    /// model, refused because inference needs the library linked in, which
    /// hands the work to the pure Rust engine.
    pub fn generate(&self, prompt: &str, max_tokens: u32) -> (r: Result<String, String>)
        ensures
            !self.loaded_spec() ==> (r matches Err(e) && e@ == "Model not loaded"@),
            self.loaded_spec() ==> (r matches Err(e)
                && e@ == "llama.cpp FFI requires libllama.so/dylib. SmartBrainEngine will use pure Rust fallback."@),
    {
        if !self.loaded {
            return Err(String::from_str("Model not loaded"));
        }
        Err(String::from_str("llama.cpp FFI requires libllama.so/dylib. SmartBrainEngine will use pure Rust fallback."))
    }

    pub fn is_loaded(&self) -> (r: bool)
        ensures
            r == self.loaded_spec(),
    {
        self.loaded
    }

    /// A line about the backend: the model and settings once loaded.
    pub fn info(&self) -> (r: String)
        ensures
            !self.loaded_spec() ==> r@ == "llama.cpp backend: not loaded"@,
            self.loaded_spec() ==> r@ == "llama.cpp backend: "@ + self.path() + " (ctx="@
                + decimal(self.settings().0 as nat) + ", threads="@ + decimal(self.settings().1 as nat)
                + ", gpu="@ + signed_decimal(self.settings().2 as int) + ")"@,
    {
        if !self.loaded {
            return String::from_str("llama.cpp backend: not loaded");
        }
        let mut r = String::from_str("llama.cpp backend: ");
        r.append(self.model_path.as_str());
        r.append(" (ctx=");
        let c = u64_to_string(self.context_size as u64);
        r.append(c.as_str());
        r.append(", threads=");
        let t = u64_to_string(self.n_threads as u64);
        r.append(t.as_str());
        r.append(", gpu=");
        let g = i32_to_string(self.n_gpu_layers);
        r.append(g.as_str());
        r.append(")");
        r
    }
}

/// The decimal text of an integer, with a leading '-' when it is negative.
pub open spec fn signed_decimal(n: int) -> Seq<char> {
    if n < 0 { "-"@ + decimal((-n) as nat) } else { decimal(n as nat) }
}

fn i32_to_string(n: i32) -> (r: String)
    ensures
        r@ == signed_decimal(n as int),
{
    if n < 0 {
        let m: u64 = (-(n as i64)) as u64;
        let d = u64_to_string(m);
        let mut r = String::from_str("-");
        r.append(d.as_str());
        r
    } else {
        u64_to_string(n as u64)
    }
}

} // verus!
