# nereid-server

An inference server for models in several formats: TorchScript, ONNX, TensorFlow SavedModels,
Python scripts, C++ programs and C++ models that are compiled in. It speaks the KServe v2 gRPC
protocol of Triton, a native streaming protocol, and plain HTTP for metrics and probes.

The server's decisions are a library that is verified with Verus; everything that touches the
outside world is a thin program around it.

- `src/` is the library. It holds the contracts that models declare and the files they are read
  from (`contract`, `textproto`, `comments`), the checks on requests and the making of responses
  (`triton`, `checkpoint`, `frame`), the models with their request permits (`manager`, `startup`),
  the two services step by step (`service`, `relay`), the accounting for Prometheus (`metrics`,
  `accounting`, `ledger`, `layout`), how a backend is chosen (`registry`, `backends`, `selection`,
  `folder`), what each kind of backend decides (`child`, `python`, `cpp`, `cxx`, `engine`, `onnx`,
  `tensorflow`, `torch`, `inference`), and the worker runtime with one tensor in and one tensor out
  (`runtime`, `scripts`, `native`).
- `app/` is the program: gRPC and HTTP, files, processes, and the calls into the inference engines.
- `tests/` holds the tests of the library.

Proof functions whose names begin with `law_` state what holds across calls: that a request is
counted exactly once, that a model's backend works on no more requests at once than the model has
permits for, that a framed tensor is read back as it was written, and so on.

Of the standard library three functions are trusted without proof, each beside its contract:
`String::push`, `std::str::from_utf8` and `String::from_utf8_lossy`.
