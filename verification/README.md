# ardupilot_bridge

ArduCopter on the Elodin Aleph flight computer: sensor readings from Elodin-DB
are forwarded to ArduPilot SITL over UDP, and ArduPilot's servo output drives
DroneCAN speed controllers and is written back as telemetry.

`src/` is a library verified with Verus. It holds the wire formats, the DroneCAN
framing, the sequence of socket calls that opens a CAN interface, the readings
that the feeds keep, the sample windows of the IMU pre-integrator and the main
loop as a state machine. It touches no socket and no clock, and holds
floating-point numbers as their IEEE 754 bit patterns or, for motor values, in
thousandths of full power.

`app/` is the program around it: command line, sockets, Elodin-DB
subscriptions, and the floating-point conversions.

`tests/` runs the library on concrete values, among them every pulse width and
motor value against the floating-point formulas.
